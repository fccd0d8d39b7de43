//! Standard base64 encoding with `=` padding, used to render the
//! handshake acceptance key. The encoder is verified against a character-
//! exact specification of the encoding.

use vstd::prelude::*;

use crate::strutil::push_char;

verus! {

/// The base64 alphabet: letters, digits, `+` and `/`.
pub open spec fn b64_char(v: u8) -> char {
    if v < 26 {
        (('A' as u8) + v) as char
    } else if v < 52 {
        (('a' as u8) + (v - 26)) as char
    } else if v < 62 {
        (('0' as u8) + (v - 52)) as char
    } else if v == 62 {
        '+'
    } else {
        '/'
    }
}

/// The four characters encoding one full three-byte group.
pub open spec fn b64_quad(b0: u8, b1: u8, b2: u8) -> Seq<char> {
    seq![
        b64_char(b0 >> 2u8),
        b64_char(((b0 & 0x03) << 4u8) | (b1 >> 4u8)),
        b64_char(((b1 & 0x0F) << 2u8) | (b2 >> 6u8)),
        b64_char(b2 & 0x3F),
    ]
}

/// The standard base64 encoding of a byte sequence, with `=` padding for
/// a trailing group of one or two bytes.
pub open spec fn spec_base64_chars(bytes: Seq<u8>) -> Seq<char>
    decreases bytes.len(),
{
    if bytes.len() == 0 {
        Seq::<char>::empty()
    } else if bytes.len() == 1 {
        let b0 = bytes[0];
        seq![b64_char(b0 >> 2u8), b64_char((b0 & 0x03) << 4u8), '=', '=']
    } else if bytes.len() == 2 {
        let b0 = bytes[0];
        let b1 = bytes[1];
        seq![
            b64_char(b0 >> 2u8),
            b64_char(((b0 & 0x03) << 4u8) | (b1 >> 4u8)),
            b64_char((b1 & 0x0F) << 2u8),
            '=',
        ]
    } else {
        b64_quad(bytes[0], bytes[1], bytes[2]) + spec_base64_chars(bytes.skip(3))
    }
}

fn b64_char_of(v: u8) -> (c: char)
    ensures
        c == b64_char(v),
{
    if v < 26 {
        (('A' as u8) + v) as char
    } else if v < 52 {
        (('a' as u8) + (v - 26)) as char
    } else if v < 62 {
        (('0' as u8) + (v - 52)) as char
    } else if v == 62 {
        '+'
    } else {
        '/'
    }
}

/// Encode `bytes` in standard base64 with padding.
pub fn base64_encode(bytes: &[u8]) -> (r: String)
    ensures
        r@ == spec_base64_chars(bytes@),
{
    let mut out = String::new();
    let n = bytes.len();
    let mut i: usize = 0;
    proof {
        assert(bytes@.skip(0) =~= bytes@);
        assert(out@ + spec_base64_chars(bytes@) =~= spec_base64_chars(bytes@));
    }
    while i < n && n - i >= 3
        invariant
            i <= n,
            n == bytes@.len(),
            spec_base64_chars(bytes@) == out@ + spec_base64_chars(bytes@.skip(i as int)),
        decreases n - i,
    {
        let ghost pre = out@;
        let ghost rest = bytes@.skip(i as int);
        let b0 = bytes[i];
        let b1 = bytes[i + 1];
        let b2 = bytes[i + 2];
        push_char(&mut out, b64_char_of(b0 >> 2u8));
        push_char(&mut out, b64_char_of(((b0 & 0x03) << 4u8) | (b1 >> 4u8)));
        push_char(&mut out, b64_char_of(((b1 & 0x0F) << 2u8) | (b2 >> 6u8)));
        push_char(&mut out, b64_char_of(b2 & 0x3F));
        proof {
            assert(rest[0] == b0 && rest[1] == b1 && rest[2] == b2);
            assert(rest.skip(3) =~= bytes@.skip(i as int + 3));
            assert(spec_base64_chars(rest) == b64_quad(b0, b1, b2) + spec_base64_chars(
                bytes@.skip(i as int + 3),
            ));
            assert(out@ =~= pre + b64_quad(b0, b1, b2));
            assert(pre + spec_base64_chars(rest) =~= out@ + spec_base64_chars(
                bytes@.skip(i as int + 3),
            ));
        }
        i = i + 3;
    }
    let ghost pre = out@;
    let ghost rest = bytes@.skip(i as int);
    if n - i == 1 {
        let b0 = bytes[i];
        push_char(&mut out, b64_char_of(b0 >> 2u8));
        push_char(&mut out, b64_char_of((b0 & 0x03) << 4u8));
        push_char(&mut out, '=');
        push_char(&mut out, '=');
        proof {
            assert(rest.len() == 1 && rest[0] == b0);
            assert(out@ =~= pre + spec_base64_chars(rest));
        }
    } else if n - i == 2 {
        let b0 = bytes[i];
        let b1 = bytes[i + 1];
        push_char(&mut out, b64_char_of(b0 >> 2u8));
        push_char(&mut out, b64_char_of(((b0 & 0x03) << 4u8) | (b1 >> 4u8)));
        push_char(&mut out, b64_char_of((b1 & 0x0F) << 2u8));
        push_char(&mut out, '=');
        proof {
            assert(rest.len() == 2 && rest[0] == b0 && rest[1] == b1);
            assert(out@ =~= pre + spec_base64_chars(rest));
        }
    } else {
        proof {
            assert(i == n);
            assert(rest =~= Seq::<u8>::empty());
            assert(out@ =~= pre + spec_base64_chars(rest));
        }
    }
    out
}

} // verus!
