//! Byte-string utilities shared by the header map and the HTTP parser:
//! ASCII case folding, optional-whitespace trimming, comma-list keyword
//! search, and the conversions between byte vectors and strings.

use vstd::prelude::*;
use vstd::slice::slice_subrange;
use vstd::utf8::{decode_utf8, valid_utf8};

verus! {

/// ASCII lowercasing of one byte; bytes outside `A`..`Z` are unchanged.
pub open spec fn spec_lower_byte(b: u8) -> u8 {
    if 0x41 <= b <= 0x5A {
        (b + 0x20) as u8
    } else {
        b
    }
}

/// ASCII lowercasing of a byte sequence.
pub open spec fn spec_lower(s: Seq<u8>) -> Seq<u8> {
    Seq::new(s.len(), |i: int| spec_lower_byte(s[i]))
}

pub fn lower_byte(b: u8) -> (r: u8)
    ensures
        r == spec_lower_byte(b),
{
    if 0x41 <= b && b <= 0x5A {
        b + 0x20
    } else {
        b
    }
}

pub fn lower_bytes(s: &[u8]) -> (r: Vec<u8>)
    ensures
        r@ == spec_lower(s@),
{
    let mut out: Vec<u8> = Vec::new();
    let n = s.len();
    let mut i: usize = 0;
    while i < n
        invariant
            i <= n,
            n == s@.len(),
            out@ == spec_lower(s@.take(i as int)),
        decreases n - i,
    {
        out.push(lower_byte(s[i]));
        proof {
            assert(out@ =~= spec_lower(s@.take(i as int + 1)));
        }
        i = i + 1;
    }
    proof {
        assert(s@.take(n as int) =~= s@);
    }
    out
}

/// Byte-wise equality of two slices.
pub fn bytes_eq(a: &[u8], b: &[u8]) -> (r: bool)
    ensures
        r == (a@ == b@),
{
    let n = a.len();
    if n != b.len() {
        proof {
            assert(a@ != b@);
        }
        return false;
    }
    let mut i: usize = 0;
    while i < n
        invariant
            i <= n,
            n == a@.len(),
            n == b@.len(),
            forall|j: int| 0 <= j < i ==> a@[j] == b@[j],
        decreases n - i,
    {
        if a[i] != b[i] {
            return false;
        }
        i = i + 1;
    }
    proof {
        assert(a@ =~= b@);
    }
    true
}

/// Optional whitespace in header values: space and horizontal tab.
pub open spec fn spec_is_ws(b: u8) -> bool {
    b == 0x20 || b == 0x09
}

/// The sequence without its leading whitespace.
pub open spec fn spec_trim_start(s: Seq<u8>) -> Seq<u8>
    decreases s.len(),
{
    if s.len() > 0 && spec_is_ws(s[0]) {
        spec_trim_start(s.drop_first())
    } else {
        s
    }
}

/// The sequence without its trailing whitespace.
pub open spec fn spec_trim_end(s: Seq<u8>) -> Seq<u8>
    decreases s.len(),
{
    if s.len() > 0 && spec_is_ws(s[s.len() - 1]) {
        spec_trim_end(s.drop_last())
    } else {
        s
    }
}

/// The sequence without leading and trailing whitespace.
pub open spec fn spec_trim(s: Seq<u8>) -> Seq<u8> {
    spec_trim_end(spec_trim_start(s))
}

proof fn lemma_trim_start_skip(s: Seq<u8>, k: int)
    requires
        0 <= k <= s.len(),
        forall|j: int| 0 <= j < k ==> spec_is_ws(s[j]),
        k == s.len() || !spec_is_ws(s[k]),
    ensures
        spec_trim_start(s) == s.skip(k),
    decreases k,
{
    if k == 0 {
        assert(s.skip(0) =~= s);
    } else {
        lemma_trim_start_skip(s.drop_first(), k - 1);
        assert(s.drop_first().skip(k - 1) =~= s.skip(k));
    }
}

proof fn lemma_trim_end_take(s: Seq<u8>, k: int)
    requires
        0 <= k <= s.len(),
        forall|j: int| k <= j < s.len() ==> spec_is_ws(s[j]),
        k == 0 || !spec_is_ws(s[k - 1]),
    ensures
        spec_trim_end(s) == s.take(k),
    decreases s.len(),
{
    if k == s.len() {
        assert(s.take(k) =~= s);
    } else {
        lemma_trim_end_take(s.drop_last(), k);
        assert(s.drop_last().take(k) =~= s.take(k));
    }
}

/// The slice without leading and trailing spaces and tabs.
pub fn trim_slice<'a>(s: &'a [u8]) -> (r: &'a [u8])
    ensures
        r@ == spec_trim(s@),
{
    let n = s.len();
    let mut lo: usize = 0;
    while lo < n && (s[lo] == 0x20 || s[lo] == 0x09)
        invariant
            lo <= n,
            n == s@.len(),
            forall|j: int| 0 <= j < lo ==> spec_is_ws(s@[j]),
        decreases n - lo,
    {
        lo = lo + 1;
    }
    let mut hi: usize = n;
    while hi > lo && (s[hi - 1] == 0x20 || s[hi - 1] == 0x09)
        invariant
            lo <= hi <= n,
            n == s@.len(),
            forall|j: int| hi <= j < n ==> spec_is_ws(s@[j]),
        decreases hi,
    {
        hi = hi - 1;
    }
    let r = slice_subrange(s, lo, hi);
    proof {
        lemma_trim_start_skip(s@, lo as int);
        let t = s@.skip(lo as int);
        assert(forall|j: int| hi - lo <= j < t.len() ==> spec_is_ws(t[j]));
        lemma_trim_end_take(t, hi - lo);
        assert(t.take(hi - lo) =~= s@.subrange(lo as int, hi as int));
    }
    r
}

/// Index of the first comma, or the length when there is none.
pub open spec fn spec_find_comma(s: Seq<u8>) -> nat
    decreases s.len(),
{
    if s.len() == 0 {
        0
    } else if s[0] == 0x2C {
        0
    } else {
        1 + spec_find_comma(s.drop_first())
    }
}

proof fn lemma_find_comma_at(s: Seq<u8>, c: int)
    requires
        0 <= c <= s.len(),
        forall|j: int| 0 <= j < c ==> s[j] != 0x2C,
        c == s.len() || s[c] == 0x2C,
    ensures
        spec_find_comma(s) == c,
    decreases c,
{
    if c > 0 {
        lemma_find_comma_at(s.drop_first(), c - 1);
    }
}

proof fn lemma_find_comma_le(s: Seq<u8>)
    ensures
        spec_find_comma(s) <= s.len(),
    decreases s.len(),
{
    if s.len() > 0 && s[0] != 0x2C {
        lemma_find_comma_le(s.drop_first());
    }
}

/// Whether any comma-separated token of `hay`, after trimming and ASCII
/// lowercasing, equals `lowered` (already lowercased).
pub open spec fn spec_keyword_scan(hay: Seq<u8>, lowered: Seq<u8>) -> bool
    decreases hay.len(),
{
    let i = spec_find_comma(hay);
    if spec_lower(spec_trim(hay.take(i as int))) == lowered {
        true
    } else if i >= hay.len() {
        false
    } else {
        spec_keyword_scan(hay.skip(i as int + 1), lowered)
    }
}

/// Whether `hay`, read as a comma-separated list, contains `needle` up to
/// surrounding whitespace and ASCII case.
pub open spec fn spec_contains_keyword(hay: Seq<u8>, needle: Seq<u8>) -> bool {
    spec_keyword_scan(hay, spec_lower(needle))
}

fn keyword_scan(hay: &[u8], lowered: &[u8]) -> (r: bool)
    ensures
        r == spec_keyword_scan(hay@, lowered@),
    decreases hay@.len(),
{
    let n = hay.len();
    let mut c: usize = 0;
    while c < n && hay[c] != 0x2C
        invariant
            c <= n,
            n == hay@.len(),
            forall|j: int| 0 <= j < c ==> hay@[j] != 0x2C,
        decreases n - c,
    {
        c = c + 1;
    }
    proof {
        lemma_find_comma_at(hay@, c as int);
    }
    let token = slice_subrange(hay, 0, c);
    let trimmed = trim_slice(token);
    let folded = lower_bytes(trimmed);
    proof {
        assert(token@ =~= hay@.take(c as int));
    }
    if bytes_eq(folded.as_slice(), lowered) {
        true
    } else if c >= n {
        false
    } else {
        let rest = slice_subrange(hay, c + 1, n);
        proof {
            assert(rest@ =~= hay@.skip(c as int + 1));
        }
        keyword_scan(rest, lowered)
    }
}

/// Whether the comma-separated list `haystack` contains `needle`, comparing
/// tokens after trimming whitespace, ignoring ASCII case.
pub fn contains_keyword(haystack: &[u8], needle: &[u8]) -> (r: bool)
    ensures
        r == spec_contains_keyword(haystack@, needle@),
{
    let lowered = lower_bytes(needle);
    keyword_scan(haystack, lowered.as_slice())
}

/// A fresh vector holding the same bytes.
pub fn copy_bytes(s: &[u8]) -> (r: Vec<u8>)
    ensures
        r@ == s@,
{
    let mut out: Vec<u8> = Vec::new();
    out.extend_from_slice(s);
    proof {
        assert(out@ =~= s@);
    }
    out
}

/// Relies on `String::from_utf8`: it returns the decoded string exactly
/// when the bytes are valid UTF-8, and an error otherwise.
#[verifier::external_body]
pub(crate) fn utf8_to_string(bytes: Vec<u8>) -> (r: Option<String>)
    ensures
        r is Some <==> valid_utf8(bytes@),
        r matches Some(s) ==> s@ == decode_utf8(bytes@),
{
    match String::from_utf8(bytes) {
        Ok(s) => Some(s),
        Err(_) => None,
    }
}

/// Relies on `String::push`: it appends the given character to the end of
/// the string.
#[verifier::external_body]
pub(crate) fn push_char(s: &mut String, c: char)
    ensures
        final(s)@ == old(s)@.push(c),
{
    s.push(c);
}

} // verus!
