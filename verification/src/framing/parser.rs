//! The incremental frame parser: a byte-wise state machine that consumes a
//! prefix of the bytes it is given and reports how far it advanced.
//!
//! The parser's meaning is given by the transition function [`fstep`] and
//! its folds [`frun`] (resulting state) and [`fconsumed`] (bytes consumed):
//! `parse` is proved to agree with them exactly, which yields chunk-boundary
//! invariance and the bound `bytes_parsed <= bytes.len()`.

use vstd::prelude::*;

use crate::framing::types::{
    ByteOne, ByteTwo, ByteTwoPayloadLength, Frame, MaskedPayload, MaskingKey, PayloadData,
    spec_byte_two_payload_length, spec_op_code_from, spec_payload_bytes_to_read, FIN_MASK,
    MASK_MASK, RESERVED_MASK,
};

verus! {

/// Position of the frame parser within one frame, as described by the
/// frame grammar: two header bytes, an optional extended length, an
/// optional mask, then the payload.
#[derive(Clone, Copy, PartialEq, Eq, Structural, Debug)]
pub enum ParserState {
    Initial,
    AwaitingByteTwo,
    ReadingPayloadLength(Buffer),
    ReadingMask(Buffer),
    ReadingPayload,
    Done,
}

/// Big-endian accumulator for the extended length and mask fields.
#[derive(Clone, Copy, PartialEq, Eq, Structural, Debug)]
pub struct Buffer {
    pub bytes_read: u8,
    pub buf_value: u64,
}

impl Buffer {
    pub fn new() -> (r: Buffer)
        ensures
            r == (Buffer { bytes_read: 0, buf_value: 0 }),
    {
        Buffer { bytes_read: 0, buf_value: 0 }
    }

    pub fn add_byte(&self, byte: u8) -> (r: Buffer)
        requires
            self.bytes_read < 8,
        ensures
            r == spec_add_byte(*self, byte),
    {
        Buffer { bytes_read: self.bytes_read + 1, buf_value: (self.buf_value << 8u64) | (byte as u64) }
    }
}

/// `buf` extended with one more big-endian byte.
pub open spec fn spec_add_byte(buf: Buffer, byte: u8) -> Buffer {
    Buffer { bytes_read: (buf.bytes_read + 1) as u8, buf_value: (buf.buf_value << 8u64) | (byte as u64) }
}

/// The mathematical state of a frame parser.
pub struct FrameParserV {
    pub state: ParserState,
    pub byte_one: Option<u8>,
    pub byte_two: Option<u8>,
    pub payload_length: Option<u64>,
    pub masking_key: Option<u32>,
    pub payload: Seq<u8>,
}

pub open spec fn some_or_zero_u8(o: Option<u8>) -> u8 {
    match o {
        Some(x) => x,
        None => 0,
    }
}

pub open spec fn some_or_zero_u64(o: Option<u64>) -> u64 {
    match o {
        Some(x) => x,
        None => 0,
    }
}

/// The state a freshly constructed parser is in.
pub open spec fn frame_parser_init() -> FrameParserV {
    FrameParserV {
        state: ParserState::Initial,
        byte_one: None,
        byte_two: None,
        payload_length: None,
        masking_key: None,
        payload: Seq::<u8>::empty(),
    }
}

/// State entered once the payload length is known: read the mask if byte
/// two announces one, otherwise read the payload, which may already be
/// complete when the declared length is zero.
pub open spec fn state_after_length(byte_two: u8, declared: u64, payload_len: nat) -> ParserState {
    if byte_two & MASK_MASK != 0 {
        ParserState::ReadingMask(Buffer { bytes_read: 0, buf_value: 0 })
    } else if payload_len == declared as nat {
        ParserState::Done
    } else {
        ParserState::ReadingPayload
    }
}

/// One byte of input applied to a parser state.
pub open spec fn fstep(v: FrameParserV, b: u8) -> FrameParserV {
    match v.state {
        ParserState::Initial => FrameParserV {
            state: ParserState::AwaitingByteTwo,
            byte_one: Some(b),
            ..v
        },
        ParserState::AwaitingByteTwo => match spec_byte_two_payload_length(b) {
            ByteTwoPayloadLength::Length(n) => FrameParserV {
                state: state_after_length(b, n as u64, v.payload.len()),
                byte_two: Some(b),
                payload_length: Some(n as u64),
                ..v
            },
            _ => FrameParserV {
                state: ParserState::ReadingPayloadLength(Buffer { bytes_read: 0, buf_value: 0 }),
                byte_two: Some(b),
                payload_length: None,
                ..v
            },
        },
        ParserState::ReadingPayloadLength(buf) => {
            let b2 = some_or_zero_u8(v.byte_two);
            let nb = spec_add_byte(buf, b);
            if nb.bytes_read == spec_payload_bytes_to_read(b2) {
                FrameParserV {
                    state: state_after_length(b2, nb.buf_value, v.payload.len()),
                    payload_length: Some(nb.buf_value),
                    ..v
                }
            } else {
                FrameParserV { state: ParserState::ReadingPayloadLength(nb), ..v }
            }
        },
        ParserState::ReadingMask(buf) => {
            let nb = spec_add_byte(buf, b);
            if nb.bytes_read == 4 {
                FrameParserV {
                    state: if v.payload.len() == some_or_zero_u64(v.payload_length) as nat {
                        ParserState::Done
                    } else {
                        ParserState::ReadingPayload
                    },
                    masking_key: Some(nb.buf_value as u32),
                    ..v
                }
            } else {
                FrameParserV { state: ParserState::ReadingMask(nb), ..v }
            }
        },
        ParserState::ReadingPayload => {
            let pay = v.payload.push(b);
            FrameParserV {
                state: if pay.len() == some_or_zero_u64(v.payload_length) as nat {
                    ParserState::Done
                } else {
                    ParserState::ReadingPayload
                },
                payload: pay,
                ..v
            }
        },
        ParserState::Done => v,
    }
}

/// The state after feeding every byte of `bs` in order. Bytes fed to a
/// finished parser leave it unchanged.
pub open spec fn frun(v: FrameParserV, bs: Seq<u8>) -> FrameParserV
    decreases bs.len(),
{
    if bs.len() == 0 {
        v
    } else {
        frun(fstep(v, bs[0]), bs.drop_first())
    }
}

/// How many leading bytes of `bs` the parser consumes before finishing;
/// a finished parser consumes nothing.
pub open spec fn fconsumed(v: FrameParserV, bs: Seq<u8>) -> nat
    decreases bs.len(),
{
    if bs.len() == 0 || v.state is Done {
        0
    } else {
        1 + fconsumed(fstep(v, bs[0]), bs.drop_first())
    }
}

/// Structural invariant tying the parser's position to its fields.
pub open spec fn frame_parser_wf(v: FrameParserV) -> bool {
    match v.state {
        ParserState::Initial => {
            &&& v.byte_one is None
            &&& v.byte_two is None
            &&& v.payload_length is None
            &&& v.masking_key is None
            &&& v.payload.len() == 0
        },
        ParserState::AwaitingByteTwo => {
            &&& v.byte_one is Some
            &&& v.byte_two is None
            &&& v.masking_key is None
            &&& v.payload.len() == 0
        },
        ParserState::ReadingPayloadLength(buf) => {
            &&& v.byte_one is Some
            &&& v.byte_two is Some
            &&& (spec_payload_bytes_to_read(some_or_zero_u8(v.byte_two)) == 2
                || spec_payload_bytes_to_read(some_or_zero_u8(v.byte_two)) == 8)
            &&& buf.bytes_read < spec_payload_bytes_to_read(some_or_zero_u8(v.byte_two))
            &&& v.masking_key is None
            &&& v.payload.len() == 0
        },
        ParserState::ReadingMask(buf) => {
            &&& v.byte_one is Some
            &&& v.byte_two is Some
            &&& some_or_zero_u8(v.byte_two) & MASK_MASK != 0
            &&& v.payload_length is Some
            &&& buf.bytes_read < 4
            &&& v.masking_key is None
            &&& v.payload.len() == 0
        },
        ParserState::ReadingPayload => {
            &&& v.byte_one is Some
            &&& v.byte_two is Some
            &&& v.payload_length is Some
            &&& v.payload.len() < some_or_zero_u64(v.payload_length) as nat
        },
        ParserState::Done => {
            &&& v.byte_one is Some
            &&& v.payload_length is Some
            &&& v.payload.len() == some_or_zero_u64(v.payload_length) as nat
        },
    }
}

/// One step preserves the structural invariant.
pub proof fn lemma_fstep_wf(v: FrameParserV, b: u8)
    requires
        frame_parser_wf(v),
    ensures
        frame_parser_wf(fstep(v, b)),
{
}

/// Every run preserves the structural invariant.
pub proof fn lemma_frun_wf(v: FrameParserV, bs: Seq<u8>)
    requires
        frame_parser_wf(v),
    ensures
        frame_parser_wf(frun(v, bs)),
    decreases bs.len(),
{
    if bs.len() > 0 {
        lemma_fstep_wf(v, bs[0]);
        lemma_frun_wf(fstep(v, bs[0]), bs.drop_first());
    }
}

/// A finished parser ignores all further input.
pub proof fn lemma_frun_done(v: FrameParserV, bs: Seq<u8>)
    requires
        v.state is Done,
    ensures
        frun(v, bs) == v,
    decreases bs.len(),
{
    if bs.len() > 0 {
        lemma_frun_done(v, bs.drop_first());
    }
}

/// Feeding one more byte is one more step.
pub proof fn lemma_frun_snoc(v: FrameParserV, a: Seq<u8>, x: u8)
    ensures
        frun(v, a.push(x)) == fstep(frun(v, a), x),
    decreases a.len(),
{
    if a.len() == 0 {
        assert(a.push(x)[0] == x);
        assert(a.push(x).drop_first() =~= Seq::<u8>::empty());
        assert(frun(fstep(v, x), Seq::<u8>::empty()) == fstep(v, x));
        assert(frun(v, a) == v);
    } else {
        assert(a.push(x)[0] == a[0]);
        assert(a.push(x).drop_first() =~= a.drop_first().push(x));
        lemma_frun_snoc(fstep(v, a[0]), a.drop_first(), x);
        assert(frun(v, a.push(x)) == frun(fstep(v, a[0]), a.drop_first().push(x)));
        assert(frun(v, a) == frun(fstep(v, a[0]), a.drop_first()));
    }
}

/// Chunk-boundary invariance: feeding `a` then `b` reaches the same state
/// as feeding `a + b` in one call.
pub proof fn lemma_frun_append(v: FrameParserV, a: Seq<u8>, b: Seq<u8>)
    ensures
        frun(v, a + b) == frun(frun(v, a), b),
    decreases a.len(),
{
    if a.len() == 0 {
        assert(a + b =~= b);
    } else {
        assert((a + b).drop_first() =~= a.drop_first() + b);
        lemma_frun_append(fstep(v, a[0]), a.drop_first(), b);
    }
}

/// The parser never consumes more bytes than it is given.
pub proof fn lemma_fconsumed_le(v: FrameParserV, bs: Seq<u8>)
    ensures
        fconsumed(v, bs) <= bs.len(),
    decreases bs.len(),
{
    if !(bs.len() == 0 || v.state is Done) {
        lemma_fconsumed_le(fstep(v, bs[0]), bs.drop_first());
    }
}

/// Consumption splits over concatenation.
pub proof fn lemma_fconsumed_append(v: FrameParserV, a: Seq<u8>, b: Seq<u8>)
    ensures
        fconsumed(v, a + b) == fconsumed(v, a) + fconsumed(frun(v, a), b),
    decreases a.len(),
{
    if a.len() == 0 {
        assert(a + b =~= b);
    } else if v.state is Done {
        lemma_frun_done(v, a);
        assert(fconsumed(v, a + b) == 0);
    } else {
        assert((a + b).drop_first() =~= a.drop_first() + b);
        lemma_fconsumed_append(fstep(v, a[0]), a.drop_first(), b);
    }
}

/// The incremental frame parser. All fields describe the frame being read;
/// `parse` returns an advanced copy rather than mutating in place.
#[derive(Clone, Debug)]
pub struct FrameParser {
    pub state: ParserState,
    pub byte_one: Option<ByteOne>,
    pub byte_two: Option<ByteTwo>,
    pub payload_length: Option<u64>,
    pub masking_key: Option<MaskingKey>,
    pub payload_data: MaskedPayload,
}

pub open spec fn view_byte_one(o: Option<ByteOne>) -> Option<u8> {
    match o {
        Some(b) => Some(b.0),
        None => None,
    }
}

pub open spec fn view_byte_two(o: Option<ByteTwo>) -> Option<u8> {
    match o {
        Some(b) => Some(b.0),
        None => None,
    }
}

pub open spec fn view_masking_key(o: Option<MaskingKey>) -> Option<u32> {
    match o {
        Some(k) => Some(k.0),
        None => None,
    }
}

impl View for FrameParser {
    type V = FrameParserV;

    open spec fn view(&self) -> FrameParserV {
        FrameParserV {
            state: self.state,
            byte_one: view_byte_one(self.byte_one),
            byte_two: view_byte_two(self.byte_two),
            payload_length: self.payload_length,
            masking_key: view_masking_key(self.masking_key),
            payload: self.payload_data@,
        }
    }
}

/// Result of one `parse` call: the advanced parser and how many of the
/// given bytes it consumed.
pub struct ParseResult {
    pub parser: FrameParser,
    pub bytes_parsed: usize,
}

impl FrameParser {
    pub fn new() -> (r: FrameParser)
        ensures
            r@ == frame_parser_init(),
            frame_parser_wf(r@),
    {
        let r = FrameParser {
            state: ParserState::Initial,
            byte_one: None,
            byte_two: None,
            payload_length: None,
            masking_key: None,
            payload_data: MaskedPayload::new(),
        };
        proof {
            assert(r@.payload =~= frame_parser_init().payload);
        }
        r
    }

    pub fn is_done(&self) -> (r: bool)
        ensures
            r == (self@.state is Done),
    {
        self.state == ParserState::Done
    }

    /// Feed `bytes` to the parser. The parser consumes from the start and
    /// stops once a whole frame has been read; unconsumed bytes stay with
    /// the caller. The result is exactly the fold of the transition
    /// function over the consumed prefix.
    pub fn parse(&self, bytes: &[u8]) -> (r: ParseResult)
        requires
            frame_parser_wf(self@),
        ensures
            r.parser@ == frun(self@, bytes@),
            frame_parser_wf(r.parser@),
            r.bytes_parsed == fconsumed(self@, bytes@),
            r.bytes_parsed <= bytes@.len(),
    {
        let mut state = self.state;
        let mut byte_one = self.byte_one;
        let mut byte_two = self.byte_two;
        let mut payload_length = self.payload_length;
        let mut masking_key = self.masking_key;
        let mut payload: Vec<u8> = self.payload_data.0.to_bytes();
        let n = bytes.len();
        let mut i: usize = 0;

        proof {
            assert(bytes@.take(0) =~= Seq::<u8>::empty());
        }

        while i < n && state != ParserState::Done
            invariant
                i <= n,
                n == bytes@.len(),
                (FrameParserV {
                    state: state,
                    byte_one: view_byte_one(byte_one),
                    byte_two: view_byte_two(byte_two),
                    payload_length: payload_length,
                    masking_key: view_masking_key(masking_key),
                    payload: payload@,
                }) == frun(self@, bytes@.take(i as int)),
                frame_parser_wf(frun(self@, bytes@.take(i as int))),
                i == fconsumed(self@, bytes@.take(i as int)),
                frame_parser_wf(self@),
            decreases n - i,
        {
            let ghost prefix = bytes@.take(i as int);
            let ghost cur = frun(self@, prefix);
            let b = bytes[i];
            proof {
                assert(bytes@.take(i as int + 1) =~= prefix.push(b));
                lemma_frun_snoc(self@, prefix, b);
                lemma_fstep_wf(cur, b);
                assert(prefix + seq![b] =~= prefix.push(b));
                lemma_fconsumed_append(self@, prefix, seq![b]);
                assert(seq![b][0] == b);
                assert(seq![b].drop_first() =~= Seq::<u8>::empty());
                assert(fconsumed(fstep(cur, b), Seq::<u8>::empty()) == 0);
                assert(fconsumed(cur, seq![b]) == 1);
            }
            match state {
                ParserState::Initial => {
                    byte_one = Some(ByteOne(b));
                    state = ParserState::AwaitingByteTwo;
                },
                ParserState::AwaitingByteTwo => {
                    let bt = ByteTwo(b);
                    byte_two = Some(bt);
                    match bt.payload_length() {
                        ByteTwoPayloadLength::Length(len) => {
                            payload_length = Some(len as u64);
                            if bt.is_mask() {
                                state = ParserState::ReadingMask(Buffer::new());
                            } else if len == 0 {
                                state = ParserState::Done;
                            } else {
                                state = ParserState::ReadingPayload;
                            }
                        },
                        _ => {
                            payload_length = None;
                            state = ParserState::ReadingPayloadLength(Buffer::new());
                        },
                    }
                },
                ParserState::ReadingPayloadLength(buf) => {
                    let bt = byte_two.unwrap();
                    let nb = buf.add_byte(b);
                    if nb.bytes_read == bt.payload_bytes_to_read() {
                        payload_length = Some(nb.buf_value);
                        if bt.is_mask() {
                            state = ParserState::ReadingMask(Buffer::new());
                        } else if nb.buf_value == 0 {
                            state = ParserState::Done;
                        } else {
                            state = ParserState::ReadingPayload;
                        }
                    } else {
                        state = ParserState::ReadingPayloadLength(nb);
                    }
                },
                ParserState::ReadingMask(buf) => {
                    let nb = buf.add_byte(b);
                    if nb.bytes_read == 4 {
                        masking_key = Some(MaskingKey(#[verifier::truncate] (nb.buf_value as u32)));
                        if payload_length.unwrap() == 0 {
                            state = ParserState::Done;
                        } else {
                            state = ParserState::ReadingPayload;
                        }
                    } else {
                        state = ParserState::ReadingMask(nb);
                    }
                },
                ParserState::ReadingPayload => {
                    payload.push(b);
                    if payload.len() as u64 == payload_length.unwrap() {
                        state = ParserState::Done;
                    }
                },
                ParserState::Done => {
                    // unreachable: the loop condition excludes a finished parser
                },
            }
            i = i + 1;
        }

        proof {
            if i == n {
                assert(bytes@.take(n as int) =~= bytes@);
            } else {
                let prefix = bytes@.take(i as int);
                let rest = bytes@.skip(i as int);
                assert(prefix + rest =~= bytes@);
                lemma_frun_append(self@, prefix, rest);
                lemma_frun_done(frun(self@, prefix), rest);
                lemma_fconsumed_append(self@, prefix, rest);
            }
        }

        ParseResult {
            parser: FrameParser {
                state,
                byte_one,
                byte_two,
                payload_length,
                masking_key,
                payload_data: MaskedPayload(PayloadData(payload)),
            },
            bytes_parsed: i,
        }
    }

    /// Feed `bytes` expecting every byte to be consumed, and keep only the
    /// advanced parser.
    pub fn parse_all(&self, bytes: &[u8]) -> (r: FrameParser)
        requires
            frame_parser_wf(self@),
            fconsumed(self@, bytes@) == bytes@.len(),
        ensures
            r@ == frun(self@, bytes@),
            frame_parser_wf(r@),
    {
        let result = self.parse(bytes);
        result.parser
    }
}

impl ParseResult {
    /// The frame as read so far, if at least its first byte has arrived.
    pub fn try_make_frame(&self) -> (r: Option<Frame>)
        ensures
            r is Some <==> self.parser@.byte_one is Some,
            r matches Some(f) ==> {
                let b1 = some_or_zero_u8(self.parser@.byte_one);
                &&& f.fin == (b1 & FIN_MASK != 0)
                &&& f.reserved == (b1 & RESERVED_MASK != 0)
                &&& f.op_code == spec_op_code_from(b1)
                &&& crate::framing::types::op_code_wf(f.op_code)
                &&& f.masking_key == self.parser.masking_key
                &&& f.payload_data@ == self.parser@.payload
            },
    {
        match self.parser.byte_one {
            None => None,
            Some(byte_one) => Some(
                Frame {
                    fin: byte_one.is_fin(),
                    reserved: byte_one.is_reserved(),
                    op_code: byte_one.op_code(),
                    masking_key: self.parser.masking_key,
                    payload_data: MaskedPayload(self.parser.payload_data.0.clone_data()),
                },
            ),
        }
    }

    /// The completed frame of a finished parser.
    pub fn make_frame_done(&self) -> (r: Frame)
        requires
            self.parser@.state is Done,
            frame_parser_wf(self.parser@),
        ensures
            ({
                let b1 = some_or_zero_u8(self.parser@.byte_one);
                &&& r.fin == (b1 & FIN_MASK != 0)
                &&& r.reserved == (b1 & RESERVED_MASK != 0)
                &&& r.op_code == spec_op_code_from(b1)
                &&& crate::framing::types::op_code_wf(r.op_code)
                &&& r.masking_key == self.parser.masking_key
                &&& r.payload_data@ == self.parser@.payload
            }),
    {
        self.try_make_frame().unwrap()
    }

    pub fn is_done(&self) -> (r: bool)
        ensures
            r == (self.parser@.state is Done),
    {
        self.parser.is_done()
    }
}

} // verus!
