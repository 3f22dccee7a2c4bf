//! HTTP/1.1 framing for the LocalAPI socket.
//!
//! `tailscaled` answers plain HTTP/1.1 over a unix socket. This module builds
//! the request bytes, splits a response into status and body (de-chunking a
//! `Transfer-Encoding: chunked` body), and reads the chunk-size lines of the
//! long-lived `watch-ipn-bus` stream. Every function is specified over byte and
//! character sequences; the socket itself belongs to the caller.

use vstd::prelude::*;
use vstd::string::*;
use vstd::utf8::*;
use crate::text::{
    ascii_lower, ascii_lower_seq, before_char, chars_of, has_infix, has_prefix, index_of, index_of_from,
    is_whitespace, is_ws, lemma_index_of_in_range, push_char, push_str, str_eq, string_of_range, trim,
    trim_bounds, trim_start, trimmed,
};

verus! {

// ---------------------------------------------------------------------------
// Searching bytes
// ---------------------------------------------------------------------------

/// Whether `n` occurs in `h` at index `i`.
pub open spec fn match_at(h: Seq<u8>, n: Seq<u8>, i: int) -> bool {
    0 <= i && i + n.len() <= h.len() && h.subrange(i, i + n.len()) == n
}

/// The first index at or after `i` where `n` occurs in `h`.
pub open spec fn find_from(h: Seq<u8>, n: Seq<u8>, i: int) -> Option<int>
    decreases h.len() + 1 - i,
{
    if i < 0 || i + n.len() > h.len() {
        None
    } else if match_at(h, n, i) {
        Some(i)
    } else {
        find_from(h, n, i + 1)
    }
}

/// The first index where `n` occurs in `h` (what `find` returns).
pub open spec fn find_spec(h: Seq<u8>, n: Seq<u8>) -> Option<int> {
    find_from(h, n, 0)
}

/// What the first occurrence says: it is a match, and nothing before it is.
pub proof fn lemma_find_from(h: Seq<u8>, n: Seq<u8>, i: int)
    requires
        0 <= i,
    ensures
        find_from(h, n, i) matches Some(k) ==> i <= k && match_at(h, n, k) && forall|j: int|
            i <= j < k ==> !match_at(h, n, j),
        find_from(h, n, i) is None ==> forall|j: int| i <= j ==> !match_at(h, n, j),
    decreases h.len() + 1 - i,
{
    if i + n.len() <= h.len() && !match_at(h, n, i) {
        lemma_find_from(h, n, i + 1);
    }
}

proof fn lemma_find_from_skip(h: Seq<u8>, n: Seq<u8>, i: int)
    requires
        0 <= i,
        forall|j: int| 0 <= j < i ==> !match_at(h, n, j),
    ensures
        find_spec(h, n) == find_from(h, n, i),
    decreases i,
{
    if i > 0 {
        lemma_find_from_skip(h, n, i - 1);
    }
}

/// Whether `n` occurs in `h` at `start + i`, compared byte by byte.
fn matches_at(h: &[u8], start: usize, n: &[u8], i: usize) -> (r: bool)
    requires
        start <= h@.len(),
        i + n@.len() <= h@.len() - start,
    ensures
        r == match_at(h@.subrange(start as int, h@.len() as int), n@, i as int),
{
    let ghost sub = h@.subrange(start as int, h@.len() as int);
    let hl = h.len();
    let m = n.len();
    let mut k: usize = 0;
    while k < m
        invariant
            hl == h@.len(),
            m == n@.len(),
            start <= h@.len(),
            sub == h@.subrange(start as int, h@.len() as int),
            i + m <= h@.len() - start,
            k <= m,
            forall|j: int| 0 <= j < k ==> sub[i + j] == #[trigger] n@[j],
        decreases m - k,
    {
        if h[start + i + k] != n[k] {
            assert(sub.subrange(i as int, i + m)[k as int] != n@[k as int]);
            return false;
        }
        k = k + 1;
    }
    assert(sub.subrange(i as int, i + m) =~= n@);
    true
}

/// The first index, counted from `start`, where `needle` occurs in
/// `haystack[start..]`.
pub fn find_after(haystack: &[u8], start: usize, needle: &[u8]) -> (r: Option<usize>)
    requires
        needle@.len() > 0,
        start <= haystack@.len(),
    ensures
        r matches Some(i) ==> find_spec(
            haystack@.subrange(start as int, haystack@.len() as int),
            needle@,
        ) == Some(i as int),
        r is None ==> find_spec(
            haystack@.subrange(start as int, haystack@.len() as int),
            needle@,
        ) is None,
{
    let ghost sub = haystack@.subrange(start as int, haystack@.len() as int);
    let len = haystack.len() - start;
    let m = needle.len();
    if m > len {
        proof {
            lemma_find_from(sub, needle@, 0);
        }
        return None;
    }
    let mut i: usize = 0;
    while i <= len - m
        invariant
            len == sub.len(),
            m == needle@.len(),
            m > 0,
            m <= len,
            start <= haystack@.len(),
            sub == haystack@.subrange(start as int, haystack@.len() as int),
            i <= len - m + 1,
            forall|j: int| 0 <= j < i ==> !match_at(sub, needle@, j),
        decreases len - i,
    {
        if matches_at(haystack, start, needle, i) {
            proof {
                lemma_find_from_skip(sub, needle@, i as int);
            }
            return Some(i);
        }
        i = i + 1;
    }
    proof {
        lemma_find_from_skip(sub, needle@, i as int);
    }
    None
}

/// Finds the first index of `needle` within `haystack`.
pub fn find(haystack: &[u8], needle: &[u8]) -> (r: Option<usize>)
    requires
        needle@.len() > 0,
    ensures
        r matches Some(i) ==> find_spec(haystack@, needle@) == Some(i as int),
        r is None ==> find_spec(haystack@, needle@) is None,
{
    assert(haystack@.subrange(0, haystack@.len() as int) == haystack@);
    find_after(haystack, 0, needle)
}

// ---------------------------------------------------------------------------
// Parsing unsigned numbers
// ---------------------------------------------------------------------------

/// The value of digit `c` in base `radix`, as `char::to_digit` gives it.
pub open spec fn digit_value(c: char, radix: nat) -> Option<nat> {
    let u = c as u32;
    let d: int = if '0' <= c <= '9' {
        u - 48
    } else if 'a' <= c <= 'z' {
        u - 87
    } else if 'A' <= c <= 'Z' {
        u - 55
    } else {
        radix as int
    };
    if d < radix {
        Some(d as nat)
    } else {
        None
    }
}

/// The value of the digit string `s` in base `radix`, if every character is
/// a digit.
pub open spec fn digits_value(s: Seq<char>, radix: nat) -> Option<nat>
    decreases s.len(),
{
    if s.len() == 0 {
        Some(0)
    } else {
        match (digits_value(s.drop_last(), radix), digit_value(s.last(), radix)) {
            (Some(a), Some(d)) => Some(a * radix + d),
            _ => None,
        }
    }
}

/// What an unsigned `from_str_radix(s, radix)` yields for a type whose largest
/// value is `max`: an optional `+`, then at least one digit, and no overflow.
pub open spec fn parse_unsigned(s: Seq<char>, radix: nat, max: nat) -> Option<nat> {
    let digits = if s.len() > 0 && s[0] == '+' {
        s.drop_first()
    } else {
        s
    };
    if digits.len() == 0 {
        None
    } else {
        match digits_value(digits, radix) {
            Some(v) => if v <= max {
                Some(v)
            } else {
                None
            },
            None => None,
        }
    }
}

proof fn lemma_digits_prefix(s: Seq<char>, radix: nat, k: int)
    requires
        0 <= k <= s.len(),
        radix >= 1,
        digits_value(s, radix) is Some,
    ensures
        digits_value(s.subrange(0, k), radix) is Some,
        digits_value(s.subrange(0, k), radix)->0 <= digits_value(s, radix)->0,
    decreases s.len(),
{
    if k == s.len() {
        assert(s.subrange(0, k) == s);
    } else {
        let t = s.drop_last();
        lemma_digits_prefix(t, radix, k);
        assert(t.subrange(0, k) == s.subrange(0, k));
        let a = digits_value(t, radix)->0;
        let d = digit_value(s.last(), radix)->0;
        assert(a <= a * radix + d) by (nonlinear_arith)
            requires
                radix >= 1,
        ;
    }
}

/// The digit value of `c` in base `radix`.
fn digit_of(c: char, radix: u32) -> (r: Option<u32>)
    requires
        2 <= radix <= 36,
    ensures
        r matches Some(d) ==> digit_value(c, radix as nat) == Some(d as nat),
        r is None ==> digit_value(c, radix as nat) is None,
{
    let u = c as u32;
    let d: u32 = if '0' <= c && c <= '9' {
        u - 48
    } else if 'a' <= c && c <= 'z' {
        u - 87
    } else if 'A' <= c && c <= 'Z' {
        u - 55
    } else {
        radix
    };
    if d < radix {
        Some(d)
    } else {
        None
    }
}

/// Parses `v[lo..hi]` as an unsigned number in base `radix` no larger than
/// `max`, the way `from_str_radix` does for unsigned integer types.
pub fn parse_unsigned_range(v: &Vec<char>, lo: usize, hi: usize, radix: u32, max: u64) -> (r:
    Option<u64>)
    requires
        lo <= hi <= v@.len(),
        2 <= radix <= 36,
    ensures
        r matches Some(x) ==> parse_unsigned(v@.subrange(lo as int, hi as int), radix as nat, max as nat)
            == Some(x as nat),
        r is None ==> parse_unsigned(v@.subrange(lo as int, hi as int), radix as nat, max as nat) is None,
{
    let ghost s = v@.subrange(lo as int, hi as int);
    let mut start = lo;
    if start < hi && v[start] == '+' {
        start = start + 1;
    }
    let ghost digits = v@.subrange(start as int, hi as int);
    assert(digits == (if s.len() > 0 && s[0] == '+' {
        s.drop_first()
    } else {
        s
    }));
    if start == hi {
        return None;
    }
    let mut acc: u64 = 0;
    let mut i = start;
    assert(digits.subrange(0, 0) =~= Seq::<char>::empty());
    while i < hi
        invariant
            lo <= start <= i <= hi <= v@.len(),
            start < hi,
            2 <= radix <= 36,
            s == v@.subrange(lo as int, hi as int),
            digits == (if s.len() > 0 && s[0] == '+' {
                s.drop_first()
            } else {
                s
            }),
            digits == v@.subrange(start as int, hi as int),
            acc <= max,
            digits_value(digits.subrange(0, i - start), radix as nat) == Some(acc as nat),
        decreases hi - i,
    {
        let ghost pre = digits.subrange(0, i - start);
        let ghost next = digits.subrange(0, i - start + 1);
        assert(next.drop_last() =~= pre);
        assert(next.last() == v@[i as int]);
        assert(digits.subrange(0, i - start + 1) == next);
        match digit_of(v[i], radix) {
            None => {
                assert(digits_value(next, radix as nat) is None);
                proof {
                    if digits_value(digits, radix as nat) is Some {
                        lemma_digits_prefix(digits, radix as nat, i - start + 1);
                    }
                }
                return None;
            },
            Some(d) => {
                assert((acc as u128) * (radix as u128) <= 0xffff_ffff_ffff_ffffu128 * 36u128)
                    by (nonlinear_arith)
                    requires
                        acc <= 0xffff_ffff_ffff_ffffu64,
                        radix <= 36,
                ;
                let wide: u128 = (acc as u128) * (radix as u128) + (d as u128);
                assert(wide == acc * radix + d);
                assert(digits_value(next, radix as nat) == Some(wide as nat));
                if wide > max as u128 {
                    proof {
                        if digits_value(digits, radix as nat) is Some {
                            lemma_digits_prefix(digits, radix as nat, i - start + 1);
                        }
                    }
                    return None;
                }
                acc = wide as u64;
            },
        }
        i = i + 1;
    }
    assert(digits.subrange(0, hi - start) == digits);
    Some(acc)
}

// ---------------------------------------------------------------------------
// UTF-8 text from bytes
// ---------------------------------------------------------------------------

/// The text that `Utf8Error`'s `Display` gives for bytes `b` that are not
/// valid UTF-8: a function of the bytes alone.
pub uninterp spec fn utf8_error_text(b: Seq<u8>) -> Seq<char>;

/// Decodes `b` as UTF-8: `std::str::from_utf8`, which the standard library
/// documents as failing exactly when the bytes are not valid UTF-8 and
/// otherwise giving the string they encode. A failure comes back as its
/// error's text (`to_string`), named `utf8_error_text`; what that text says
/// is left unsaid.
#[verifier::external_body]
pub(crate) fn utf8_string(b: &[u8]) -> (r: Result<String, String>)
    ensures
        r is Ok <==> valid_utf8(b@),
        r matches Ok(s) ==> s@ == decode_utf8(b@),
        r matches Err(t) ==> t@ == utf8_error_text(b@),
{
    match std::str::from_utf8(b) {
        Ok(s) => Ok(s.to_string()),
        Err(e) => Err(e.to_string()),
    }
}

/// The text `String::from_utf8_lossy` makes of `b`: a function of the bytes
/// alone, in which each invalid sequence becomes U+FFFD.
pub uninterp spec fn utf8_lossy(b: Seq<u8>) -> Seq<char>;

/// `String::from_utf8_lossy`. Its result is named `utf8_lossy`; the standard
/// library documents that valid UTF-8 comes back unchanged, which the second
/// clause states. Which replacement characters stand for invalid bytes is
/// left unsaid.
#[verifier::external_body]
pub(crate) fn lossy_string(b: &[u8]) -> (r: String)
    ensures
        r@ == utf8_lossy(b@),
        valid_utf8(b@) ==> r@ == decode_utf8(b@),
{
    String::from_utf8_lossy(b).into_owned()
}

// ---------------------------------------------------------------------------
// Chunk-size lines
// ---------------------------------------------------------------------------

/// The size a chunk-size line announces: the line trimmed, cut at the first
/// `;` (chunk extensions), read as hexadecimal into a `usize`.
pub open spec fn chunk_size_value(line: Seq<char>) -> Option<nat> {
    parse_unsigned(before_char(trim(line), ';'), 16, usize::MAX as nat)
}

/// Position of the first `c` in `v[lo..hi]`, counted from `lo`.
fn position_in_range(v: &Vec<char>, lo: usize, hi: usize, c: char) -> (r: Option<usize>)
    requires
        lo <= hi <= v@.len(),
    ensures
        r matches Some(i) ==> index_of(v@.subrange(lo as int, hi as int), c) == Some(i as int),
        r is None ==> index_of(v@.subrange(lo as int, hi as int), c) is None,
{
    let ghost s = v@.subrange(lo as int, hi as int);
    let mut i = lo;
    while i < hi
        invariant
            lo <= i <= hi <= v@.len(),
            s == v@.subrange(lo as int, hi as int),
            forall|j: int| 0 <= j < i - lo ==> #[trigger] s[j] != c,
        decreases hi - i,
    {
        if v[i] == c {
            proof {
                lemma_index_of_prefix(s, c, i - lo);
            }
            return Some(i - lo);
        }
        i = i + 1;
    }
    proof {
        lemma_index_of_prefix(s, c, s.len() as int);
    }
    None
}

proof fn lemma_index_of_prefix(s: Seq<char>, c: char, i: int)
    requires
        0 <= i <= s.len(),
        forall|j: int| 0 <= j < i ==> #[trigger] s[j] != c,
    ensures
        index_of(s, c) == index_of_from(s, c, i),
    decreases i,
{
    if i > 0 {
        lemma_index_of_prefix(s, c, i - 1);
    }
}

/// The chunk size that the characters `v` announce, when they form a valid
/// chunk-size line.
pub fn chunk_size_of(v: &Vec<char>) -> (r: Option<usize>)
    ensures
        r matches Some(x) ==> chunk_size_value(v@) == Some(x as nat),
        r is None ==> chunk_size_value(v@) is None,
{
    let (lo, hi) = trim_bounds(v);
    let ghost t = v@.subrange(lo as int, hi as int);
    let end = match position_in_range(v, lo, hi, ';') {
        Some(i) => {
            proof {
                lemma_index_of_in_range(t, ';');
                assert(before_char(t, ';') == v@.subrange(lo as int, lo + i));
            }
            lo + i
        },
        None => hi,
    };
    assert(before_char(t, ';') == v@.subrange(lo as int, end as int));
    match parse_unsigned_range(v, lo, end, 16, usize::MAX as u64) {
        Some(x) => Some(x as usize),
        None => None,
    }
}

/// Errors in a chunked body.
#[derive(Debug, Clone, PartialEq, Eq)]
pub enum ChunkError {
    /// A chunk-size line is not terminated by CRLF.
    MissingHeader,
    /// A chunk-size line is not UTF-8 text; the decoder's account of why.
    NotText(String),
    /// A chunk-size line does not hold a hexadecimal size.
    BadSize,
    /// The body ends inside a chunk.
    Truncated,
}

/// A chunk error, in spec terms.
pub enum ChunkFault {
    MissingHeader,
    NotText(Seq<char>),
    BadSize,
    Truncated,
}

/// The spec-level reading of a chunk error.
pub open spec fn chunk_fault(e: ChunkError) -> ChunkFault {
    match e {
        ChunkError::MissingHeader => ChunkFault::MissingHeader,
        ChunkError::NotText(t) => ChunkFault::NotText(t@),
        ChunkError::BadSize => ChunkFault::BadSize,
        ChunkError::Truncated => ChunkFault::Truncated,
    }
}

/// The bytes CR LF.
pub open spec fn crlf() -> Seq<u8> {
    seq![13u8, 10u8]
}

/// What de-chunking `data` yields: the concatenated chunk payloads, up to the
/// zero-size chunk, or the first error met.
pub open spec fn dechunk_spec(data: Seq<u8>) -> Result<Seq<u8>, ChunkFault>
    decreases data.len(),
{
    match find_spec(data, crlf()) {
        None => Err(ChunkFault::MissingHeader),
        Some(pos) => {
            let line = data.subrange(0, pos);
            if !valid_utf8(line) {
                Err(ChunkFault::NotText(utf8_error_text(line)))
            } else {
                match chunk_size_value(decode_utf8(line)) {
                    None => Err(ChunkFault::BadSize),
                    Some(size) => {
                        let rest = data.subrange(pos + 2, data.len() as int);
                        if size == 0 {
                            Ok(Seq::empty())
                        } else if rest.len() < size {
                            Err(ChunkFault::Truncated)
                        } else {
                            let skip: int = if size + 2 <= rest.len() {
                                (size + 2) as int
                            } else {
                                rest.len() as int
                            };
                            proof {
                                lemma_find_crlf_bounds(data);
                            }
                            match dechunk_spec(rest.subrange(skip, rest.len() as int)) {
                                Ok(tail) => Ok(rest.subrange(0, size as int) + tail),
                                Err(e) => Err(e),
                            }
                        }
                    }
                }
            }
        },
    }
}

pub proof fn lemma_find_crlf_bounds(data: Seq<u8>)
    ensures
        find_spec(data, crlf()) matches Some(pos) ==> 0 <= pos && pos + 2 <= data.len(),
{
    lemma_find_from(data, crlf(), 0);
}

/// Decodes a `Transfer-Encoding: chunked` body.
pub fn dechunk(data: &[u8]) -> (r: Result<Vec<u8>, ChunkError>)
    ensures
        r matches Ok(out) ==> dechunk_spec(data@) == Ok::<Seq<u8>, ChunkFault>(out@),
        r matches Err(e) ==> dechunk_spec(data@) == Err::<Seq<u8>, ChunkFault>(chunk_fault(e)),
{
    let mut out: Vec<u8> = Vec::new();
    let mut start: usize = 0;
    let crlf_bytes: [u8; 2] = [13u8, 10u8];
    let crlf_slice: &[u8] = crlf_bytes.as_slice();
    assert(crlf_slice@ == crlf());
    let dlen = data.len();
    proof {
        assert(data@.subrange(0, data@.len() as int) =~= data@);
        match dechunk_spec(data@) {
            Ok(t) => {
                assert(out@ + t =~= t);
            },
            Err(_) => {},
        }
    }
    loop
        invariant
            dlen == data@.len(),
            start <= data@.len(),
            crlf_slice@ == crlf(),
            dechunk_spec(data@) == (match dechunk_spec(
                data@.subrange(start as int, data@.len() as int),
            ) {
                Ok(tail) => Ok(out@ + tail),
                Err(e) => Err(e),
            }),
        decreases data@.len() - start,
    {
        let ghost cur = data@.subrange(start as int, data@.len() as int);
        proof {
            lemma_find_crlf_bounds(cur);
        }
        let pos = match find_after(data, start, crlf_slice) {
            None => {
                return Err(ChunkError::MissingHeader);
            },
            Some(p) => p,
        };
        let line_bytes = &data[start..start + pos];
        assert(line_bytes@ == cur.subrange(0, pos as int));
        let line = match utf8_string(line_bytes) {
            Err(why) => {
                return Err(ChunkError::NotText(why));
            },
            Ok(s) => s,
        };
        let chars = chars_of(line.as_str());
        let size = match chunk_size_of(&chars) {
            None => {
                return Err(ChunkError::BadSize);
            },
            Some(x) => x,
        };
        let ghost rest = cur.subrange(pos + 2, cur.len() as int);
        let body_start = start + pos + 2;
        assert(rest == data@.subrange(body_start as int, data@.len() as int));
        if size == 0 {
            assert(out@ + Seq::<u8>::empty() == out@);
            return Ok(out);
        }
        let avail = data.len() - body_start;
        if avail < size {
            return Err(ChunkError::Truncated);
        }
        let mut k: usize = 0;
        let ghost out0 = out@;
        while k < size
            invariant
                dlen == data@.len(),
                k <= size <= avail,
                avail == data@.len() - body_start,
                body_start <= data@.len(),
                out@ == out0 + data@.subrange(body_start as int, body_start + k),
            decreases size - k,
        {
            out.push(data[body_start + k]);
            assert(data@.subrange(body_start as int, body_start + k + 1) == data@.subrange(
                body_start as int,
                body_start + k,
            ).push(data@[body_start + k]));
            k = k + 1;
        }
        assert(data@.subrange(body_start as int, body_start + size) == rest.subrange(
            0,
            size as int,
        ));
        let skip = if avail >= 2 && size <= avail - 2 {
            size + 2
        } else {
            avail
        };
        assert(rest.subrange(skip as int, rest.len() as int) == data@.subrange(
            body_start + skip,
            data@.len() as int,
        ));
        assert((out0 + rest.subrange(0, size as int)) + Seq::<u8>::empty() == out@);
        proof {
            assert forall|tail: Seq<u8>|
                #![trigger out0 + (rest.subrange(0, size as int) + tail)]
                out0 + (rest.subrange(0, size as int) + tail) == out@ + tail by {
                assert(out0 + (rest.subrange(0, size as int) + tail) =~= out@ + tail);
            }
        }
        start = body_start + skip;
    }
}

// ---------------------------------------------------------------------------
// Chunked framing, and that de-chunking undoes it
// ---------------------------------------------------------------------------

/// The lower-case hexadecimal digit for `d` (below 16).
pub open spec fn hex_digit_char(d: nat) -> char {
    if d < 10 {
        (d + 48) as char
    } else {
        (d + 87) as char
    }
}

/// `n` in lower-case hexadecimal, as `{:x}` writes it.
pub open spec fn hex_digits(n: nat) -> Seq<char>
    decreases n,
{
    if n < 16 {
        seq![hex_digit_char(n)]
    } else {
        hex_digits(n / 16).push(hex_digit_char(n % 16))
    }
}

/// One chunk as a sender frames it: the payload's size in hexadecimal, CR LF,
/// the payload, CR LF.
pub open spec fn chunk_frame(c: Seq<u8>) -> Seq<u8> {
    encode_utf8(hex_digits(c.len())) + crlf() + c + crlf()
}

/// The zero-size chunk and the empty trailer that end a chunked body.
pub open spec fn last_chunk() -> Seq<u8> {
    seq![48u8, 13u8, 10u8, 13u8, 10u8]
}

/// A chunked body carrying the payloads `cs`, in order.
pub open spec fn chunked_body(cs: Seq<Seq<u8>>) -> Seq<u8>
    decreases cs.len(),
{
    if cs.len() == 0 {
        last_chunk()
    } else {
        chunk_frame(cs[0]) + chunked_body(cs.drop_first())
    }
}

/// A lower-case hexadecimal digit character, by its code.
pub open spec fn is_hex_code(u: u32) -> bool {
    (48 <= u <= 57) || (97 <= u <= 102)
}

proof fn lemma_hex_digits(n: nat)
    ensures
        hex_digits(n).len() >= 1,
        forall|i: int| 0 <= i < hex_digits(n).len() ==> is_hex_code(#[trigger] hex_digits(n)[i] as u32),
        digits_value(hex_digits(n), 16) == Some(n),
    decreases n,
{
    let d = n % 16;
    assert(hex_digit_char(d) as u32 == if d < 10 { d + 48 } else { d + 87 });
    assert(digit_value(hex_digit_char(d), 16) == Some(d));
    if n >= 16 {
        lemma_hex_digits(n / 16);
        let s = hex_digits(n);
        assert(s.drop_last() == hex_digits(n / 16));
    } else {
        assert(hex_digits(n).drop_last() =~= Seq::<char>::empty());
    }
}

/// The UTF-8 encoding of text made of ASCII characters: one byte each.
proof fn lemma_encode_ascii(s: Seq<char>)
    requires
        forall|i: int| 0 <= i < s.len() ==> (#[trigger] s[i] as u32) < 128,
    ensures
        encode_utf8(s).len() == s.len(),
        forall|i: int| 0 <= i < s.len() ==> #[trigger] encode_utf8(s)[i] as u32 == s[i] as u32,
    decreases s.len(),
{
    if s.len() > 0 {
        let v = s[0] as u32;
        assert(v & 0x7F == v) by (bit_vector)
            requires
                v < 128,
        ;
        lemma_encode_ascii(s.drop_first());
        let e = encode_utf8(s);
        assert forall|i: int| 0 <= i < s.len() implies #[trigger] e[i] as u32 == s[i] as u32 by {
            if i > 0 {
                assert(e[i] == encode_utf8(s.drop_first())[i - 1]);
                assert(s.drop_first()[i - 1] == s[i]);
            }
        }
    }
}

proof fn lemma_trim_hex(s: Seq<char>)
    requires
        s.len() >= 1,
        forall|i: int| 0 <= i < s.len() ==> is_hex_code(#[trigger] s[i] as u32),
    ensures
        trim(s) == s,
        index_of(s, ';') is None,
        !(s[0] == '+'),
{
    assert(!is_ws(s[0]));
    assert(trim_start(s) == s);
    assert(!is_ws(s.last()));
    lemma_no_char(s, ';', 0);
}

proof fn lemma_no_char(s: Seq<char>, c: char, from: int)
    requires
        0 <= from,
        forall|i: int| 0 <= i < s.len() ==> #[trigger] s[i] != c,
    ensures
        index_of_from(s, c, from) is None,
    decreases s.len() - from,
{
    if from < s.len() {
        lemma_no_char(s, c, from + 1);
    }
}

/// A size line `hex_digits(n)` followed by CR LF and `after`: where
/// de-chunking finds the line, and what it reads from it.
proof fn lemma_size_line(n: nat, after: Seq<u8>)
    requires
        n <= usize::MAX,
    ensures
        ({
            let line = encode_utf8(hex_digits(n));
            let data = line + crlf() + after;
            &&& find_spec(data, crlf()) == Some(line.len() as int)
            &&& data.subrange(0, line.len() as int) == line
            &&& valid_utf8(line)
            &&& decode_utf8(line) == hex_digits(n)
            &&& chunk_size_value(hex_digits(n)) == Some(n)
            &&& data.subrange(line.len() + 2int, data.len() as int) == after
        }),
{
    let h = hex_digits(n);
    lemma_hex_digits(n);
    lemma_encode_ascii(h);
    let line = encode_utf8(h);
    let data = line + crlf() + after;
    let l = line.len() as int;
    assert forall|j: int| 0 <= j < l implies !match_at(data, crlf(), j) by {
        assert(data[j] == line[j]);
        assert(is_hex_code(h[j] as u32));
        if match_at(data, crlf(), j) {
            assert(data.subrange(j, j + 2)[0] == 13u8);
        }
    }
    lemma_find_from_skip(data, crlf(), l);
    assert(data.subrange(l, l + 2) =~= crlf());
    assert(find_from(data, crlf(), l) == Some(l));
    assert(data.subrange(0, l) =~= line);
    assert(data.subrange(l + 2, data.len() as int) =~= after);
    vstd::utf8::encode_utf8_valid_utf8(h);
    vstd::utf8::encode_utf8_decode_utf8(h);
    lemma_trim_hex(h);
}

/// De-chunking undoes chunked framing: a body that frames non-empty payloads,
/// each after its size in hexadecimal, and ends with the zero-size chunk,
/// decodes to the payloads joined in order, whatever bytes (CR LF among
/// them) the payloads hold.
pub proof fn law_dechunk_frames(cs: Seq<Seq<u8>>)
    requires
        forall|i: int| 0 <= i < cs.len() ==> 0 < #[trigger] cs[i].len() <= usize::MAX,
    ensures
        dechunk_spec(chunked_body(cs)) == Ok::<Seq<u8>, ChunkFault>(cs.flatten()),
    decreases cs.len(),
{
    if cs.len() == 0 {
        lemma_encode_ascii(hex_digits(0));
        assert(encode_utf8(hex_digits(0)) =~= seq![48u8]);
        assert(last_chunk() =~= encode_utf8(hex_digits(0)) + crlf() + crlf());
        lemma_size_line(0, crlf());
    } else {
        let c = cs[0];
        let tail = chunked_body(cs.drop_first());
        let after = c + crlf() + tail;
        let data = chunked_body(cs);
        assert(data =~= encode_utf8(hex_digits(c.len())) + crlf() + after);
        lemma_size_line(c.len(), after);
        assert(after.subrange(0, c.len() as int) =~= c);
        assert(after.subrange(c.len() + 2int, after.len() as int) =~= tail);
        assert forall|i: int| 0 <= i < cs.drop_first().len() implies 0 < #[trigger] cs.drop_first()[i].len()
            <= usize::MAX by {
            assert(cs.drop_first()[i] == cs[i + 1]);
        }
        law_dechunk_frames(cs.drop_first());
    }
}

// ---------------------------------------------------------------------------
// Header scanning (over the decoded header text)
// ---------------------------------------------------------------------------

/// Whether a CR LF pair starts at `i` in the text `s`.
pub open spec fn crlf_at(s: Seq<char>, i: int) -> bool {
    0 <= i && i + 1 < s.len() && s[i] == '\r' && s[i + 1] == '\n'
}

/// Where the line that starts at `a` ends: the next CR LF, or the end of `s`.
pub open spec fn line_end_from(s: Seq<char>, a: int) -> int
    decreases s.len() - a,
{
    if a < 0 || a >= s.len() {
        s.len() as int
    } else if crlf_at(s, a) {
        a
    } else {
        line_end_from(s, a + 1)
    }
}

/// The first line of `s` (`s.split("\r\n").next()`).
pub open spec fn first_line(s: Seq<char>) -> Seq<char> {
    s.subrange(0, line_end_from(s, 0))
}

/// Whether a header line declares a chunked transfer encoding.
pub open spec fn declares_chunked(line: Seq<char>) -> bool {
    let l = ascii_lower_seq(line);
    has_prefix(l, "transfer-encoding:"@) && has_infix(l, "chunked"@)
}

/// Whether any header line after the status line declares chunking.
pub open spec fn headers_chunked(s: Seq<char>) -> bool {
    exists|i: int|
        #![trigger crlf_at(s, i)]
        crlf_at(s, i) && declares_chunked(s.subrange(i + 2, line_end_from(s, i + 2)))
}

/// The first index at or after `i` that is not whitespace.
pub open spec fn skip_ws_from(s: Seq<char>, i: int) -> int
    decreases s.len() - i,
{
    if 0 <= i < s.len() && is_ws(s[i]) {
        skip_ws_from(s, i + 1)
    } else {
        i
    }
}

/// The first index at or after `i` that is whitespace.
pub open spec fn skip_word_from(s: Seq<char>, i: int) -> int
    decreases s.len() - i,
{
    if 0 <= i < s.len() && !is_ws(s[i]) {
        skip_word_from(s, i + 1)
    } else {
        i
    }
}

/// The second whitespace-separated word of `s` (`s.split_whitespace().nth(1)`).
pub open spec fn second_word(s: Seq<char>) -> Option<Seq<char>> {
    let a1 = skip_ws_from(s, 0);
    if a1 >= s.len() {
        None
    } else {
        let b1 = skip_word_from(s, a1);
        let a2 = skip_ws_from(s, b1);
        if a2 >= s.len() {
            None
        } else {
            Some(s.subrange(a2, skip_word_from(s, a2)))
        }
    }
}

/// The status code of a response whose header text is `s`.
pub open spec fn status_code_of(s: Seq<char>) -> Option<nat> {
    match second_word(first_line(s)) {
        Some(w) => parse_unsigned(w, 10, 0xffff),
        None => None,
    }
}

proof fn lemma_line_end(s: Seq<char>, a: int)
    requires
        0 <= a,
    ensures
        a <= line_end_from(s, a) || a >= s.len(),
        line_end_from(s, a) <= s.len(),
        line_end_from(s, a) < s.len() ==> crlf_at(s, line_end_from(s, a)),
        forall|j: int| a <= j < line_end_from(s, a) ==> !crlf_at(s, j),
    decreases s.len() - a,
{
    if a < s.len() && !crlf_at(s, a) {
        lemma_line_end(s, a + 1);
    }
}

proof fn lemma_skip_ws(s: Seq<char>, i: int)
    requires
        0 <= i <= s.len(),
    ensures
        i <= skip_ws_from(s, i) <= s.len(),
        skip_ws_from(s, i) < s.len() ==> !is_ws(s[skip_ws_from(s, i)]),
    decreases s.len() - i,
{
    if i < s.len() && is_ws(s[i]) {
        lemma_skip_ws(s, i + 1);
    }
}

proof fn lemma_skip_word(s: Seq<char>, i: int)
    requires
        0 <= i <= s.len(),
    ensures
        i <= skip_word_from(s, i) <= s.len(),
    decreases s.len() - i,
{
    if i < s.len() && !is_ws(s[i]) {
        lemma_skip_word(s, i + 1);
    }
}

/// `line_end_from` computed: the next CR LF at or after `a`, else the end.
fn line_end(v: &Vec<char>, a: usize) -> (r: usize)
    requires
        a <= v@.len(),
    ensures
        r == line_end_from(v@, a as int),
{
    let n = v.len();
    let mut i = a;
    while i < n && !(v[i] == '\r' && i + 1 < n && v[i + 1] == '\n')
        invariant
            a <= i <= n,
            n == v@.len(),
            line_end_from(v@, a as int) == line_end_from(v@, i as int),
        decreases n - i,
    {
        i = i + 1;
    }
    i
}

fn skip_ws(v: &Vec<char>, i: usize, hi: usize) -> (r: usize)
    requires
        i <= hi <= v@.len(),
    ensures
        r == skip_ws_from(v@.subrange(0, hi as int), i as int),
{
    let ghost s = v@.subrange(0, hi as int);
    let mut k = i;
    while k < hi && is_whitespace(v[k])
        invariant
            i <= k <= hi <= v@.len(),
            s == v@.subrange(0, hi as int),
            skip_ws_from(s, i as int) == skip_ws_from(s, k as int),
        decreases hi - k,
    {
        k = k + 1;
    }
    k
}

fn skip_word(v: &Vec<char>, i: usize, hi: usize) -> (r: usize)
    requires
        i <= hi <= v@.len(),
    ensures
        r == skip_word_from(v@.subrange(0, hi as int), i as int),
{
    let ghost s = v@.subrange(0, hi as int);
    let mut k = i;
    while k < hi && !is_whitespace(v[k])
        invariant
            i <= k <= hi <= v@.len(),
            s == v@.subrange(0, hi as int),
            skip_word_from(s, i as int) == skip_word_from(s, k as int),
        decreases hi - k,
    {
        k = k + 1;
    }
    k
}

/// The status code written in the header text `v`, if the status line holds
/// one.
fn status_code(v: &Vec<char>) -> (r: Option<u16>)
    ensures
        r matches Some(c) ==> status_code_of(v@) == Some(c as nat),
        r is None ==> status_code_of(v@) is None,
{
    let e = line_end(v, 0);
    proof {
        lemma_line_end(v@, 0);
    }
    let ghost s = v@.subrange(0, e as int);
    assert(s == first_line(v@));
    let a1 = skip_ws(v, 0, e);
    proof {
        lemma_skip_ws(s, 0);
    }
    if a1 >= e {
        return None;
    }
    let b1 = skip_word(v, a1, e);
    proof {
        lemma_skip_word(s, a1 as int);
    }
    let a2 = skip_ws(v, b1, e);
    proof {
        lemma_skip_ws(s, b1 as int);
    }
    if a2 >= e {
        return None;
    }
    let b2 = skip_word(v, a2, e);
    proof {
        lemma_skip_word(s, a2 as int);
        assert(s.subrange(a2 as int, b2 as int) == v@.subrange(a2 as int, b2 as int));
    }
    match parse_unsigned_range(v, a2, b2, 10, 0xffff) {
        Some(c) => Some(c as u16),
        None => None,
    }
}

/// Whether `v[lo..hi]`, ASCII-lower-cased, starts with `p`.
fn lower_range_starts_with(v: &Vec<char>, lo: usize, hi: usize, p: &str) -> (r: bool)
    requires
        lo <= hi <= v@.len(),
    ensures
        r == has_prefix(ascii_lower_seq(v@.subrange(lo as int, hi as int)), p@),
{
    let ghost l = ascii_lower_seq(v@.subrange(lo as int, hi as int));
    let m = p.unicode_len();
    if m > hi - lo {
        return false;
    }
    let mut i: usize = 0;
    while i < m
        invariant
            m == p@.len(),
            lo <= hi <= v@.len(),
            m <= hi - lo,
            l == ascii_lower_seq(v@.subrange(lo as int, hi as int)),
            i <= m,
            forall|j: int| 0 <= j < i ==> l[j] == #[trigger] p@[j],
        decreases m - i,
    {
        let c = to_ascii_lower(v[lo + i]);
        assert(l[i as int] == c);
        if c != p.get_char(i) {
            assert(l.subrange(0, m as int)[i as int] != p@[i as int]);
            return false;
        }
        i = i + 1;
    }
    assert(l.subrange(0, m as int) =~= p@);
    true
}

/// ASCII lower-casing of `c`.
pub fn to_ascii_lower(c: char) -> (r: char)
    ensures
        r == ascii_lower(c),
{
    if 'A' <= c && c <= 'Z' {
        let u = (c as u32) + 32;
        assert(u == (c as u32) + 32);
        let b = u as u8;
        assert(b as char == ((c as u32) + 32) as char);
        b as char
    } else {
        c
    }
}

/// Whether `v[lo..hi]`, ASCII-lower-cased, contains `p`.
fn lower_range_contains(v: &Vec<char>, lo: usize, hi: usize, p: &str) -> (r: bool)
    requires
        lo <= hi <= v@.len(),
    ensures
        r == has_infix(ascii_lower_seq(v@.subrange(lo as int, hi as int)), p@),
{
    let ghost l = ascii_lower_seq(v@.subrange(lo as int, hi as int));
    let m = p.unicode_len();
    if m > hi - lo {
        proof {
            assert forall|i: int| 0 <= i && i + p@.len() <= l.len() implies #[trigger] l.subrange(
                i,
                i + p@.len(),
            ) != p@ by {}
        }
        return false;
    }
    if m == 0 {
        assert(l.subrange(0, 0int + p@.len()) =~= p@);
        return true;
    }
    let mut i: usize = 0;
    while i <= (hi - lo) - m
        invariant
            m >= 1,
            m == p@.len(),
            lo <= hi <= v@.len(),
            m <= hi - lo,
            l == ascii_lower_seq(v@.subrange(lo as int, hi as int)),
            l.len() == hi - lo,
            forall|j: int| 0 <= j < i ==> #[trigger] l.subrange(j, j + m) != p@,
        decreases (hi - lo) - m + 1 - i,
    {
        let ok = lower_range_starts_with(v, lo + i, hi, p);
        proof {
            let t = ascii_lower_seq(v@.subrange(lo + i, hi as int));
            assert(t =~= l.subrange(i as int, l.len() as int));
            if ok {
                assert(l.subrange(i as int, i + m) =~= t.subrange(0, m as int));
            } else {
                assert(l.subrange(i as int, i + m) =~= t.subrange(0, m as int));
            }
        }
        if ok {
            return true;
        }
        i = i + 1;
    }
    false
}

/// Whether the header text `v` declares a chunked body after its status line.
fn chunked_in(v: &Vec<char>) -> (r: bool)
    ensures
        r == headers_chunked(v@),
{
    let n = v.len();
    let mut i: usize = 0;
    while i < n
        invariant
            n == v@.len(),
            forall|j: int|
                #![trigger crlf_at(v@, j)]
                0 <= j < i && crlf_at(v@, j) ==> !declares_chunked(
                    v@.subrange(j + 2, line_end_from(v@, j + 2)),
                ),
        decreases n - i,
    {
        if i + 1 < n && v[i] == '\r' && v[i + 1] == '\n' {
            let a = i + 2;
            let e = line_end(v, a);
            proof {
                lemma_line_end(v@, a as int);
            }
            let ok = lower_range_starts_with(v, a, e, "transfer-encoding:") && lower_range_contains(
                v,
                a,
                e,
                "chunked",
            );
            if ok {
                assert(crlf_at(v@, i as int));
                return true;
            }
        }
        i = i + 1;
    }
    proof {
        assert forall|j: int| #![trigger crlf_at(v@, j)] crlf_at(v@, j) implies !declares_chunked(
            v@.subrange(j + 2, line_end_from(v@, j + 2)),
        ) by {}
    }
    false
}

// ---------------------------------------------------------------------------
// Responses
// ---------------------------------------------------------------------------

/// Why a LocalAPI response was not accepted.
#[derive(Debug, Clone, PartialEq, Eq)]
pub enum HttpError {
    /// No blank line ends the headers.
    NoHeaderTerminator,
    /// The status line, as read, holds no numeric status code.
    BadStatusLine(String),
    /// The chunked body is malformed.
    Chunk(ChunkError),
    /// The daemon answered with a non-2xx status; the body explains why.
    Status { code: u16, body: Vec<u8> },
}

/// The outcome of reading a response, in spec terms.
pub enum ResponseOutcome {
    Body(Seq<u8>),
    NoHeaderTerminator,
    BadStatusLine(Seq<char>),
    Chunk(ChunkFault),
    Status(nat, Seq<u8>),
}

/// The bytes CR LF CR LF that end the headers.
pub open spec fn blank_line() -> Seq<u8> {
    seq![13u8, 10u8, 13u8, 10u8]
}

/// What the LocalAPI client makes of the raw response `raw`: the body of a
/// 2xx answer, de-chunked when the headers say so, or why it was refused.
pub open spec fn response_outcome(raw: Seq<u8>) -> ResponseOutcome {
    match find_spec(raw, blank_line()) {
        None => ResponseOutcome::NoHeaderTerminator,
        Some(split) => {
            let header_text = utf8_lossy(raw.subrange(0, split));
            let body = raw.subrange(split + 4, raw.len() as int);
            match status_code_of(header_text) {
                None => ResponseOutcome::BadStatusLine(first_line(header_text)),
                Some(code) => {
                    let decoded: Result<Seq<u8>, ChunkFault> = if headers_chunked(header_text) {
                        dechunk_spec(body)
                    } else {
                        Ok(body)
                    };
                    match decoded {
                        Err(e) => ResponseOutcome::Chunk(e),
                        Ok(b) => if 200 <= code < 300 {
                            ResponseOutcome::Body(b)
                        } else {
                            ResponseOutcome::Status(code, b)
                        },
                    }
                },
            }
        },
    }
}

/// The spec-level reading of a parse result.
pub open spec fn outcome_of(r: Result<Vec<u8>, HttpError>) -> ResponseOutcome {
    match r {
        Ok(b) => ResponseOutcome::Body(b@),
        Err(HttpError::NoHeaderTerminator) => ResponseOutcome::NoHeaderTerminator,
        Err(HttpError::BadStatusLine(line)) => ResponseOutcome::BadStatusLine(line@),
        Err(HttpError::Chunk(e)) => ResponseOutcome::Chunk(chunk_fault(e)),
        Err(HttpError::Status { code, body }) => ResponseOutcome::Status(code as nat, body@),
    }
}

/// Splits an HTTP/1.1 response into status and body, de-chunking if
/// necessary, and returns the body. A non-2xx status is an error that carries
/// the body.
pub fn parse_http_response(raw: &[u8]) -> (r: Result<Vec<u8>, HttpError>)
    ensures
        outcome_of(r) == response_outcome(raw@),
{
    let terminator: [u8; 4] = [13u8, 10u8, 13u8, 10u8];
    let term: &[u8] = terminator.as_slice();
    assert(term@ == blank_line());
    let rlen = raw.len();
    let split = match find(raw, term) {
        None => {
            return Err(HttpError::NoHeaderTerminator);
        },
        Some(s) => s,
    };
    proof {
        lemma_find_from(raw@, blank_line(), 0);
    }
    let headers = &raw[0..split];
    let header_text = lossy_string(headers);
    let chars = chars_of(header_text.as_str());
    let code = match status_code(&chars) {
        None => {
            let e = line_end(&chars, 0);
            proof {
                lemma_line_end(chars@, 0);
            }
            return Err(HttpError::BadStatusLine(string_of_range(&chars, 0, e)));
        },
        Some(c) => c,
    };
    let rest = &raw[split + 4..raw.len()];
    let body = if chunked_in(&chars) {
        match dechunk(rest) {
            Ok(b) => b,
            Err(e) => {
                return Err(HttpError::Chunk(e));
            },
        }
    } else {
        slice_to_vec(rest)
    };
    if 200 <= code && code < 300 {
        Ok(body)
    } else {
        Err(HttpError::Status { code, body })
    }
}

/// The text `format!("{:?}", s)` makes of the string `s`: quoted, with the
/// characters that `str`'s `Debug` escapes escaped. A function of `s` alone.
pub uninterp spec fn debug_quoted(s: Seq<char>) -> Seq<char>;

/// `<str as Debug>::fmt`, through `format!("{:?}", s)`. Its result is named
/// `debug_quoted`; which characters it escapes, and how, is left unsaid.
#[verifier::external_body]
fn debug_text(s: &str) -> (r: String)
    ensures
        r@ == debug_quoted(s@),
{
    format!("{:?}", s)
}

/// How a chunk error is reported.
pub open spec fn chunk_error_message(e: ChunkError) -> Seq<char> {
    match e {
        ChunkError::MissingHeader => "malformed chunk header"@,
        ChunkError::NotText(why) => why@,
        ChunkError::BadSize => "parse chunk size"@,
        ChunkError::Truncated => "truncated chunk body"@,
    }
}

/// How a refused response is reported: a daemon's refusal shows its status
/// code and the text of its body, trimmed.
pub open spec fn http_error_message(e: HttpError) -> Seq<char> {
    match e {
        HttpError::NoHeaderTerminator => "malformed HTTP response (no header terminator)"@,
        HttpError::BadStatusLine(line) => "malformed HTTP status line: "@ + debug_quoted(line@),
        HttpError::Chunk(c) => chunk_error_message(c),
        HttpError::Status { code, body } => "LocalAPI returned HTTP "@ + dec_digits(code as nat)
            + ": "@ + trim(utf8_lossy(body@)),
    }
}

impl ChunkError {
    /// The text the error is reported with.
    pub fn message(&self) -> (m: String)
        ensures
            m@ == chunk_error_message(*self),
    {
        match self {
            ChunkError::MissingHeader => String::from_str("malformed chunk header"),
            ChunkError::NotText(why) => why.clone(),
            ChunkError::BadSize => String::from_str("parse chunk size"),
            ChunkError::Truncated => String::from_str("truncated chunk body"),
        }
    }
}

impl HttpError {
    /// The text the error is reported with.
    pub fn message(&self) -> (m: String)
        ensures
            m@ == http_error_message(*self),
    {
        match self {
            HttpError::NoHeaderTerminator => String::from_str(
                "malformed HTTP response (no header terminator)",
            ),
            HttpError::BadStatusLine(line) => {
                let mut m = String::from_str("malformed HTTP status line: ");
                let q = debug_text(line.as_str());
                push_str(&mut m, q.as_str());
                m
            },
            HttpError::Chunk(c) => c.message(),
            HttpError::Status { code, body } => {
                let mut m = String::from_str("LocalAPI returned HTTP ");
                let d = decimal(*code as u64);
                push_str(&mut m, d.as_str());
                push_str(&mut m, ": ");
                let text = lossy_string(body.as_slice());
                let t = trimmed(text.as_str());
                push_str(&mut m, t.as_str());
                m
            },
        }
    }
}

/// The header text of a response whose headers end at `split`.
pub open spec fn header_text_at(raw: Seq<u8>, split: int) -> Seq<char> {
    utf8_lossy(raw.subrange(0, split))
}

/// A response's status class decides how it is read: it is refused with its
/// status exactly when the code lies outside 200..300, and every 2xx answer
/// whose body decodes is a success, whatever its code (a `204 No Content`
/// included).
pub proof fn law_success_is_2xx(raw: Seq<u8>)
    ensures
        response_outcome(raw) matches ResponseOutcome::Status(code, _) ==> !(200 <= code < 300),
        (find_spec(raw, blank_line()) matches Some(split) && status_code_of(header_text_at(raw, split))
            matches Some(code) && 200 <= code < 300 && !(response_outcome(raw) is Chunk))
            ==> response_outcome(raw) is Body,
        response_outcome(raw) is Body ==> (find_spec(raw, blank_line()) matches Some(split)
            && status_code_of(header_text_at(raw, split)) matches Some(code) && 200 <= code < 300),
{
}

/// A copy of `s`.
fn slice_to_vec(s: &[u8]) -> (v: Vec<u8>)
    ensures
        v@ == s@,
{
    let mut v: Vec<u8> = Vec::new();
    let mut i: usize = 0;
    while i < s.len()
        invariant
            i <= s@.len(),
            v@ == s@.subrange(0, i as int),
        decreases s@.len() - i,
    {
        v.push(s[i]);
        i = i + 1;
    }
    assert(s@.subrange(0, s@.len() as int) == s@);
    v
}


// ---------------------------------------------------------------------------
// Requests
// ---------------------------------------------------------------------------

/// The character of decimal digit `d`.
pub open spec fn digit_char(d: nat) -> char {
    (d + 48) as char
}

/// The decimal digits of `n`, as `{}` formats an unsigned integer.
pub open spec fn dec_digits(n: nat) -> Seq<char>
    decreases n,
{
    if n < 10 {
        seq![digit_char(n)]
    } else {
        dec_digits(n / 10).push(digit_char(n % 10))
    }
}

/// Formats `n` in decimal.
pub fn decimal(n: u64) -> (s: String)
    ensures
        s@ == dec_digits(n as nat),
    decreases n,
{
    let d = (n % 10) as u8;
    let c = (48u8 + d) as char;
    assert(c == digit_char((n % 10) as nat));
    if n < 10 {
        let mut s = String::new();
        push_char(&mut s, c);
        assert(s@ =~= seq![c]);
        s
    } else {
        let mut s = decimal(n / 10);
        push_char(&mut s, c);
        s
    }
}

/// The header text of a LocalAPI request: `tailscaled` checks the `Host`
/// header, and `Connection: close` lets the response be read to its end.
pub open spec fn request_head(method: Seq<char>, path: Seq<char>, body_len: nat) -> Seq<char> {
    method + " "@ + path
        + " HTTP/1.1\r\nHost: local-tailscaled.sock\r\nConnection: close\r\nContent-Type: application/json\r\nContent-Length: "@
        + dec_digits(body_len) + "\r\n\r\n"@
}

/// One request to the LocalAPI: method, path and JSON body.
#[derive(Debug, Clone)]
pub struct ApiRequest {
    pub method: String,
    pub path: String,
    pub body: Vec<u8>,
}

/// The bytes of `t` followed by `body`.
fn text_then_bytes(t: &String, body: &Vec<u8>) -> (b: Vec<u8>)
    ensures
        b@ == encode_utf8(t@) + body@,
{
    let mut out = t.as_str().as_bytes_vec();
    let ghost head = out@;
    let mut i: usize = 0;
    while i < body.len()
        invariant
            i <= body@.len(),
            out@ == head + body@.subrange(0, i as int),
        decreases body@.len() - i,
    {
        out.push(body[i]);
        assert(body@.subrange(0, i + 1) == body@.subrange(0, i as int).push(body@[i as int]));
        i = i + 1;
    }
    assert(body@.subrange(0, body@.len() as int) == body@);
    out
}

impl ApiRequest {
    /// A request with an empty body.
    pub fn new(method: &str, path: String) -> (r: ApiRequest)
        ensures
            r.method@ == method@,
            r.path@ == path@,
            r.body@ == Seq::<u8>::empty(),
    {
        ApiRequest { method: String::from_str(method), path, body: Vec::new() }
    }

    /// The request as it goes over the socket: the header text, then the body.
    pub fn to_bytes(&self) -> (b: Vec<u8>)
        ensures
            b@ == encode_utf8(request_head(self.method@, self.path@, self.body@.len())) + self.body@,
    {
        let mut h = String::new();
        push_str(&mut h, self.method.as_str());
        push_str(&mut h, " ");
        push_str(&mut h, self.path.as_str());
        push_str(
            &mut h,
            " HTTP/1.1\r\nHost: local-tailscaled.sock\r\nConnection: close\r\nContent-Type: application/json\r\nContent-Length: ",
        );
        let len = decimal(self.body.len() as u64);
        push_str(&mut h, len.as_str());
        push_str(&mut h, "\r\n\r\n");
        text_then_bytes(&h, &self.body)
    }
}

/// `NotifyInitialState`: emit the current state on connect.
pub const NOTIFY_INITIAL_STATE: u64 = 2;

/// `NotifyInitialPrefs`: include the prefs in the initial burst and on change.
pub const NOTIFY_INITIAL_PREFS: u64 = 4;

/// `NotifyInitialNetMap`: include the network map on connect and change.
pub const NOTIFY_INITIAL_NETMAP: u64 = 8;

/// `NotifyRateLimit`: coalesce frequent network-map updates.
pub const NOTIFY_RATE_LIMIT: u64 = 256;

/// The notify-mask bits the event stream subscribes to.
pub const WATCH_MASK: u64 = NOTIFY_INITIAL_STATE | NOTIFY_INITIAL_PREFS | NOTIFY_INITIAL_NETMAP
    | NOTIFY_RATE_LIMIT;

/// The request that opens the `watch-ipn-bus` event stream.
pub open spec fn watch_request_text() -> Seq<char> {
    "GET /localapi/v0/watch-ipn-bus?mask="@ + dec_digits(WATCH_MASK as nat)
        + " HTTP/1.1\r\nHost: local-tailscaled.sock\r\nConnection: keep-alive\r\n\r\n"@
}

/// The bytes that open the `watch-ipn-bus` event stream.
pub fn watch_request() -> (b: Vec<u8>)
    ensures
        b@ == encode_utf8(watch_request_text()),
{
    let mut h = String::new();
    push_str(&mut h, "GET /localapi/v0/watch-ipn-bus?mask=");
    let mask = decimal(WATCH_MASK);
    push_str(&mut h, mask.as_str());
    push_str(&mut h, " HTTP/1.1\r\nHost: local-tailscaled.sock\r\nConnection: keep-alive\r\n\r\n");
    let empty: Vec<u8> = Vec::new();
    let b = text_then_bytes(&h, &empty);
    assert(b@ =~= encode_utf8(h@));
    b
}

// ---------------------------------------------------------------------------
// The event stream: header and chunk-size lines, newline-delimited records
// ---------------------------------------------------------------------------

/// Whether a header line read from the stream is the blank line that ends
/// the headers.
pub fn ends_headers(line: &str) -> (r: bool)
    ensures
        r == (line@ == "\r\n"@ || line@ == "\n"@),
{
    str_eq(line, "\r\n") || str_eq(line, "\n")
}

/// What one line read between chunks of the stream means.
#[derive(Debug, Clone, Copy, PartialEq, Eq)]
pub enum ChunkLine {
    /// A stray blank line, tolerated between chunks.
    Blank,
    /// The terminating zero-size chunk.
    Last,
    /// A chunk of this many bytes follows.
    Size(usize),
}

/// Reads one chunk-size line of the event stream: blank lines are skipped,
/// size zero ends the stream, anything that is not a hexadecimal size is an
/// error.
pub fn read_chunk_size(line: &str) -> (r: Result<ChunkLine, ChunkError>)
    ensures
        trim(line@).len() == 0 ==> r == Ok::<ChunkLine, ChunkError>(ChunkLine::Blank),
        trim(line@).len() != 0 ==> match chunk_size_value(line@) {
            None => r == Err::<ChunkLine, ChunkError>(ChunkError::BadSize),
            Some(n) => if n == 0 {
                r == Ok::<ChunkLine, ChunkError>(ChunkLine::Last)
            } else {
                r matches Ok(ChunkLine::Size(k)) && k as nat == n
            },
        },
{
    let v = chars_of(line);
    let (lo, hi) = trim_bounds(&v);
    if lo == hi {
        return Ok(ChunkLine::Blank);
    }
    match chunk_size_of(&v) {
        None => Err(ChunkError::BadSize),
        Some(0) => Ok(ChunkLine::Last),
        Some(n) => Ok(ChunkLine::Size(n)),
    }
}

/// The newline byte.
pub open spec fn newline() -> Seq<u8> {
    seq![10u8]
}

/// Splits `s` at its newlines: the non-empty complete lines (without their
/// newline), and what follows the last newline.
pub open spec fn split_records(s: Seq<u8>) -> (Seq<Seq<u8>>, Seq<u8>)
    decreases s.len(),
{
    match find_spec(s, newline()) {
        None => (Seq::empty(), s),
        Some(i) => {
            proof {
                lemma_find_from(s, newline(), 0);
            }
            let (lines, rest) = split_records(s.subrange(i + 1, s.len() as int));
            if i == 0 {
                (lines, rest)
            } else {
                (seq![s.subrange(0, i)] + lines, rest)
            }
        },
    }
}

/// The byte contents of each line.
pub open spec fn lines_view(lines: Seq<Vec<u8>>) -> Seq<Seq<u8>> {
    lines.map_values(|l: Vec<u8>| l@)
}

/// Appends `data` to the pending bytes `buf` and takes out every complete,
/// non-empty newline-terminated record; the incomplete tail stays in `buf`.
pub fn take_records(buf: &mut Vec<u8>, data: &[u8]) -> (lines: Vec<Vec<u8>>)
    ensures
        (lines_view(lines@), final(buf)@) == split_records(old(buf)@ + data@),
{
    let mut all: Vec<u8> = Vec::new();
    all.append(buf);
    let mut i: usize = 0;
    while i < data.len()
        invariant
            i <= data@.len(),
            all@ == old(buf)@ + data@.subrange(0, i as int),
        decreases data@.len() - i,
    {
        all.push(data[i]);
        assert(data@.subrange(0, i + 1) == data@.subrange(0, i as int).push(data@[i as int]));
        i = i + 1;
    }
    assert(data@.subrange(0, data@.len() as int) == data@);
    let nl: [u8; 1] = [10u8];
    let nl_slice: &[u8] = nl.as_slice();
    assert(nl_slice@ == newline());
    let alen = all.len();
    let mut lines: Vec<Vec<u8>> = Vec::new();
    let mut start: usize = 0;
    assert(all@.subrange(0, all@.len() as int) == all@);
    assert(lines_view(lines@) =~= Seq::<Seq<u8>>::empty());
    loop
        invariant
            alen == all@.len(),
            start <= alen,
            nl_slice@ == newline(),
            all@ == old(buf)@ + data@,
            split_records(all@) == ({
                let (ls, rest) = split_records(all@.subrange(start as int, alen as int));
                (lines_view(lines@) + ls, rest)
            }),
        decreases alen - start,
    {
        let ghost cur = all@.subrange(start as int, alen as int);
        proof {
            lemma_find_from(cur, newline(), 0);
        }
        match find_after(all.as_slice(), start, nl_slice) {
            None => {
                let mut rest: Vec<u8> = Vec::new();
                let mut k = start;
                while k < alen
                    invariant
                        start <= k <= alen,
                        alen == all@.len(),
                        rest@ == all@.subrange(start as int, k as int),
                    decreases alen - k,
                {
                    rest.push(all[k]);
                    assert(all@.subrange(start as int, k + 1) == all@.subrange(start as int, k as int).push(all@[k as int]));
                    k = k + 1;
                }
                assert(lines_view(lines@) + Seq::<Seq<u8>>::empty() == lines_view(lines@));
                *buf = rest;
                return lines;
            },
            Some(p) => {
                let ghost old_lines = lines@;
                if p > 0 {
                    let mut line: Vec<u8> = Vec::new();
                    let mut k = start;
                    while k < start + p
                        invariant
                            start <= k <= start + p,
                            start + p < alen,
                            alen == all@.len(),
                            line@ == all@.subrange(start as int, k as int),
                        decreases start + p - k,
                    {
                        line.push(all[k]);
                        assert(all@.subrange(start as int, k + 1) == all@.subrange(start as int, k as int).push(all@[k as int]));
                        k = k + 1;
                    }
                    assert(line@ == cur.subrange(0, p as int));
                    lines.push(line);
                    assert(lines_view(lines@) =~= lines_view(old_lines).push(cur.subrange(0, p as int)));
                }
                let ghost next = cur.subrange(p + 1, cur.len() as int);
                assert(next == all@.subrange(start + p + 1, alen as int));
                proof {
                    let (ls, rest) = split_records(next);
                    if p > 0 {
                        assert(lines_view(old_lines) + (seq![cur.subrange(0, p as int)] + ls) =~= lines_view(lines@) + ls);
                    }
                }
                start = start + p + 1;
            },
        }
    }
}

/// A first occurrence in `x` is the first occurrence in `x` followed by
/// anything.
proof fn lemma_find_in_prefix(x: Seq<u8>, y: Seq<u8>, n: Seq<u8>)
    ensures
        find_spec(x, n) matches Some(i) ==> find_spec(x + y, n) == Some(i),
{
    lemma_find_from(x, n, 0);
    if let Some(i) = find_spec(x, n) {
        let h = x + y;
        assert forall|j: int| 0 <= j < i implies !match_at(h, n, j) by {
            assert(h.subrange(j, j + n.len()) =~= x.subrange(j, j + n.len()));
            assert(!match_at(x, n, j));
        }
        assert(h.subrange(i, i + n.len()) =~= x.subrange(i, i + n.len()));
        assert(match_at(h, n, i));
        lemma_find_from_skip(h, n, i);
    }
}

/// Records do not depend on where the stream was cut into chunks: taking
/// the records of `x`, then those of its leftover followed by `y`, gives the
/// records and the leftover of `x` followed by `y` taken at once.
pub proof fn law_records_across_chunks(x: Seq<u8>, y: Seq<u8>)
    ensures
        ({
            let (l1, r1) = split_records(x);
            let (l2, r2) = split_records(r1 + y);
            split_records(x + y) == (l1 + l2, r2)
        }),
    decreases x.len(),
{
    lemma_find_from(x, newline(), 0);
    lemma_find_in_prefix(x, y, newline());
    match find_spec(x, newline()) {
        None => {
            let (l2, r2) = split_records(x + y);
            assert(Seq::<Seq<u8>>::empty() + l2 =~= l2);
        },
        Some(i) => {
            let h = x + y;
            let xr = x.subrange(i + 1, x.len() as int);
            assert(h.subrange(i + 1, h.len() as int) =~= xr + y);
            assert(h.subrange(0, i) =~= x.subrange(0, i));
            law_records_across_chunks(xr, y);
            let (l1p, r1p) = split_records(xr);
            let (l2, r2) = split_records(r1p + y);
            if i == 0 {
                assert(split_records(x) == (l1p, r1p));
                assert(split_records(h) == (l1p + l2, r2));
            } else {
                assert(split_records(x) == (seq![x.subrange(0, i)] + l1p, r1p));
                assert(split_records(h) == (seq![x.subrange(0, i)] + (l1p + l2), r2));
                assert(seq![x.subrange(0, i)] + (l1p + l2) =~= (seq![x.subrange(0, i)] + l1p)
                    + l2);
            }
        },
    }
}
} // verus!
