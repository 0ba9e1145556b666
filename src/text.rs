//! The text form of the bridge's session endpoint.
//!
//! A request reads `{session_tag} {base64_blob}`: fields separated by
//! Unicode whitespace, the tag a decimal `u32` (`0` asks for a new session), the
//! blob the client's TLS bytes in base64. A response reads `{session_id}`
//! followed by one space and the base64 form of each outbound chunk, in
//! the order the enclave emitted them.

use crate::message::copy_range;
use vstd::prelude::*;
use vstd::string::{StringExecFns, StringSliceAdditionalSpecFns};

verus! {

/// The character of the standard base64 alphabet for the six bits `v`.
pub open spec fn base64_char(v: nat) -> char {
    if v < 26 {
        (65 + v) as char
    } else if v < 52 {
        (97 + v - 26) as char
    } else if v < 62 {
        (48 + v - 52) as char
    } else if v == 62 {
        '+'
    } else {
        '/'
    }
}

/// The standard, padded base64 text of some bytes: four characters for
/// each group of three bytes, the last group completed with `=`.
pub open spec fn base64_encoding(b: Seq<u8>) -> Seq<char>
    decreases b.len(),
{
    if b.len() == 0 {
        seq![]
    } else if b.len() == 1 {
        seq![base64_char(b[0] as nat / 4), base64_char((b[0] as nat % 4) * 16), '=', '=']
    } else if b.len() == 2 {
        seq![
            base64_char(b[0] as nat / 4),
            base64_char((b[0] as nat % 4) * 16 + b[1] as nat / 16),
            base64_char((b[1] as nat % 16) * 4),
            '=',
        ]
    } else {
        seq![
            base64_char(b[0] as nat / 4),
            base64_char((b[0] as nat % 4) * 16 + b[1] as nat / 16),
            base64_char((b[1] as nat % 16) * 4 + b[2] as nat / 64),
            base64_char(b[2] as nat % 64),
        ] + base64_encoding(b.skip(3))
    }
}

/// The bytes that some base64 text stands for, if it is valid.
pub uninterp spec fn base64_decoding(s: Seq<u8>) -> Option<Seq<u8>>;

#[verifier::external_type_specification]
#[verifier::external_body]
pub struct ExDecodeError(base64::DecodeError);

/// Whether `n` bytes can be encoded without the output length overflowing.
pub open spec fn base64_encodable(n: nat) -> bool {
    4 * ((n + 2) / 3) <= usize::MAX
}

/// Relies on `base64::encode`: the standard alphabet with padding. It
/// panics when the output length overflows `usize`, which the precondition
/// excludes.
#[verifier::external_body]
pub(crate) fn encode_base64(b: &[u8]) -> (r: String)
    requires
        base64_encodable(b@.len()),
    ensures
        r@ == base64_encoding(b@),
{
    base64::encode(b)
}

/// Relies on `base64::decode`: `Ok` with the decoded bytes for valid
/// standard base64 text, an error otherwise.
#[verifier::external_body]
pub(crate) fn decode_base64(s: &[u8]) -> (r: Result<Vec<u8>, base64::DecodeError>)
    ensures
        match r {
            Ok(v) => base64_decoding(s@) == Some(v@),
            Err(_) => base64_decoding(s@) is None,
        },
{
    base64::decode(s)
}

/// Whether three bytes encode a whitespace character outside ASCII and
/// Latin-1: U+1680, U+2000 to U+200A, U+2028, U+2029, U+202F, U+205F and
/// U+3000 in UTF-8.
pub open spec fn is_space3(a: u8, b: u8, c: u8) -> bool {
    ||| (a == 0xE1 && b == 0x9A && c == 0x80)
    ||| (a == 0xE2 && b == 0x80 && ((0x80 <= c && c <= 0x8A) || c == 0xA8 || c == 0xA9 || c == 0xAF))
    ||| (a == 0xE2 && b == 0x81 && c == 0x9F)
    ||| (a == 0xE3 && b == 0x80 && c == 0x80)
}

/// The length of the UTF-8 encoded whitespace character at index `i`, zero
/// if there is none. Whitespace is Unicode's `White_Space`: tab, line feed,
/// vertical tab, form feed, carriage return and space, U+0085 and U+00A0,
/// and the characters of [`is_space3`].
pub open spec fn space_len(s: Seq<u8>, i: int) -> nat {
    if 0 <= i < s.len() && (s[i] == 32 || (9 <= s[i] && s[i] <= 13)) {
        1
    } else if 0 <= i && i + 1 < s.len() && s[i] == 0xC2 && (s[i + 1] == 0x85 || s[i + 1] == 0xA0) {
        2
    } else if 0 <= i && i + 2 < s.len() && is_space3(s[i], s[i + 1], s[i + 2]) {
        3
    } else {
        0
    }
}

/// The first index at or after `i` that starts no whitespace character.
pub open spec fn skip_space(s: Seq<u8>, i: nat) -> nat
    decreases s.len() - i,
{
    if i >= s.len() {
        s.len()
    } else if space_len(s, i as int) > 0 {
        skip_space(s, i + space_len(s, i as int))
    } else {
        i
    }
}

/// The first index at or after `i` that starts a whitespace character.
pub open spec fn token_end(s: Seq<u8>, i: nat) -> nat
    decreases s.len() - i,
{
    if i >= s.len() {
        s.len()
    } else if space_len(s, i as int) > 0 {
        i
    } else {
        token_end(s, i + 1)
    }
}

/// The first two whitespace-separated fields of `s`, if it has two.
pub open spec fn first_two_fields(s: Seq<u8>) -> Option<(Seq<u8>, Seq<u8>)> {
    let a0 = skip_space(s, 0);
    let b0 = token_end(s, a0);
    let a1 = skip_space(s, b0);
    let b1 = token_end(s, a1);
    if a1 < s.len() {
        Some((s.subrange(a0 as int, b0 as int), s.subrange(a1 as int, b1 as int)))
    } else {
        None
    }
}

pub open spec fn all_digits(d: Seq<u8>) -> bool {
    forall|i: int| 0 <= i < d.len() ==> 48 <= #[trigger] d[i] <= 57
}

/// The number that a string of decimal digits denotes.
pub open spec fn digits_value(d: Seq<u8>) -> nat
    decreases d.len(),
{
    if d.len() == 0 {
        0
    } else {
        digits_value(d.drop_last()) * 10 + (d.last() - 48) as nat
    }
}

/// A decimal `u32` with an optional leading `+`, as Rust's integer parsing
/// reads it.
pub open spec fn decimal_u32(t: Seq<u8>) -> Option<u32> {
    let d = if t.len() > 0 && t[0] == 43 {
        t.drop_first()
    } else {
        t
    };
    if d.len() > 0 && all_digits(d) && digits_value(d) <= u32::MAX {
        Some(digits_value(d) as u32)
    } else {
        None
    }
}

/// Why a session request was refused.
#[derive(Clone, Copy, Debug, PartialEq, Eq, Structural)]
pub enum RequestError {
    /// Fewer than two fields.
    InvalidRequestFormat,
    /// The first field is not a decimal `u32`.
    InvalidSessionTag,
    /// The second field is not valid base64.
    Base64Decode,
}

/// The session tag and the base64 text of a request.
pub open spec fn split_request_spec(s: Seq<u8>) -> Result<(u32, Seq<u8>), RequestError> {
    match first_two_fields(s) {
        None => Err(RequestError::InvalidRequestFormat),
        Some((tag, blob)) => match decimal_u32(tag) {
            None => Err(RequestError::InvalidSessionTag),
            Some(n) => Ok((n, blob)),
        },
    }
}

fn space_len_exec(s: &[u8], i: usize) -> (r: usize)
    requires
        i <= s@.len(),
    ensures
        r == space_len(s@, i as int),
        i + r <= s@.len(),
{
    let n = s.len();
    if i < n && (s[i] == 32 || (9 <= s[i] && s[i] <= 13)) {
        return 1;
    }
    if n - i > 1 && s[i] == 0xC2 && (s[i + 1] == 0x85 || s[i + 1] == 0xA0) {
        return 2;
    }
    if n - i > 2 {
        let (a, b, c) = (s[i], s[i + 1], s[i + 2]);
        if (a == 0xE1 && b == 0x9A && c == 0x80) || (a == 0xE2 && b == 0x80 && ((0x80 <= c && c <= 0x8A) || c
            == 0xA8 || c == 0xA9 || c == 0xAF)) || (a == 0xE2 && b == 0x81 && c == 0x9F) || (a == 0xE3 && b
            == 0x80 && c == 0x80) {
            return 3;
        }
    }
    0
}

fn skip_space_exec(s: &[u8], start: usize) -> (r: usize)
    requires
        start <= s@.len(),
    ensures
        r == skip_space(s@, start as nat),
{
    let mut i = start;
    while i < s.len() && space_len_exec(s, i) > 0
        invariant
            start <= i <= s@.len(),
            skip_space(s@, i as nat) == skip_space(s@, start as nat),
        decreases s@.len() - i,
    {
        i = i + space_len_exec(s, i);
    }
    i
}

fn token_end_exec(s: &[u8], start: usize) -> (r: usize)
    requires
        start <= s@.len(),
    ensures
        r == token_end(s@, start as nat),
{
    let mut i = start;
    while i < s.len() && space_len_exec(s, i) == 0
        invariant
            start <= i <= s@.len(),
            token_end(s@, i as nat) == token_end(s@, start as nat),
        decreases s@.len() - i,
    {
        i = i + 1;
    }
    i
}

proof fn lemma_skip_space_bounds(s: Seq<u8>, i: nat)
    ensures
        i <= s.len() ==> i <= skip_space(s, i) <= s.len(),
    decreases s.len() - i,
{
    if i < s.len() && space_len(s, i as int) > 0 {
        lemma_skip_space_bounds(s, i + space_len(s, i as int));
    }
}

proof fn lemma_token_end_bounds(s: Seq<u8>, i: nat)
    ensures
        i <= s.len() ==> i <= token_end(s, i) <= s.len(),
    decreases s.len() - i,
{
    if i < s.len() {
        lemma_token_end_bounds(s, i + 1);
    }
}

/// Reads a decimal `u32` with an optional leading `+`.
pub fn parse_decimal_u32(t: &[u8]) -> (r: Option<u32>)
    ensures
        r == decimal_u32(t@),
{
    let start: usize = if t.len() > 0 && t[0] == 43 { 1 } else { 0 };
    let ghost d = if t@.len() > 0 && t@[0] == 43 { t@.drop_first() } else { t@ };
    assert(d =~= t@.subrange(start as int, t@.len() as int));
    if start >= t.len() {
        return None;
    }
    let cap: u64 = 0x1_0000_0000;
    let mut acc: u64 = 0;
    let mut i: usize = start;
    while i < t.len()
        invariant
            start <= i <= t@.len(),
            d == t@.subrange(start as int, t@.len() as int),
            d == (if t@.len() > 0 && t@[0] == 43 { t@.drop_first() } else { t@ }),
            cap == 0x1_0000_0000,
            all_digits(t@.subrange(start as int, i as int)),
            acc as nat == if digits_value(t@.subrange(start as int, i as int)) < cap {
                digits_value(t@.subrange(start as int, i as int))
            } else {
                cap as nat
            },
        decreases t@.len() - i,
    {
        let c = t[i];
        let ghost prev = t@.subrange(start as int, i as int);
        let ghost next = t@.subrange(start as int, i + 1);
        assert(next.drop_last() =~= prev);
        if c < 48 || c > 57 {
            assert(t@[i as int] == c);
            assert(d[i - start] == t@[i as int]);
            assert(!all_digits(d));
            return None;
        }
        let v = acc * 10 + (c - 48) as u64;
        acc = if v < cap { v } else { cap };
        i = i + 1;
        assert(all_digits(next)) by {
            assert forall|k: int| 0 <= k < next.len() implies 48 <= #[trigger] next[k] <= 57 by {
                if k < prev.len() {
                    assert(next[k] == prev[k]);
                }
            }
        }
        assert(digits_value(next) == digits_value(prev) * 10 + (c - 48) as nat);
        assert(digits_value(prev) >= cap ==> digits_value(next) >= cap) by (nonlinear_arith)
            requires
                digits_value(next) == digits_value(prev) * 10 + (c - 48) as nat,
        ;
    }
    assert(t@.subrange(start as int, i as int) == d);
    if acc >= cap {
        None
    } else {
        Some(acc as u32)
    }
}

/// Splits a session request into its tag and the base64 text of its blob.
pub fn split_session_request(input: &str) -> (r: Result<(u32, Vec<u8>), RequestError>)
    ensures
        match split_request_spec(input.spec_bytes()) {
            Ok((tag, blob)) => r matches Ok((t, b)) && t == tag && b@ == blob,
            Err(e) => r == Err::<(u32, Vec<u8>), RequestError>(e),
        },
{
    let s = input.as_bytes();
    let a0 = skip_space_exec(s, 0);
    proof {
        lemma_skip_space_bounds(s@, 0);
    }
    let b0 = token_end_exec(s, a0);
    proof {
        lemma_token_end_bounds(s@, a0 as nat);
    }
    let a1 = skip_space_exec(s, b0);
    proof {
        lemma_skip_space_bounds(s@, b0 as nat);
    }
    let b1 = token_end_exec(s, a1);
    proof {
        lemma_token_end_bounds(s@, a1 as nat);
    }
    if a1 >= s.len() {
        return Err(RequestError::InvalidRequestFormat);
    }
    let tag = copy_range(s, a0, b0);
    let blob = copy_range(s, a1, b1);
    match parse_decimal_u32(tag.as_slice()) {
        None => Err(RequestError::InvalidSessionTag),
        Some(n) => Ok((n, blob)),
    }
}

/// The decimal digits of `n` as ASCII bytes, most significant first.
pub open spec fn decimal_digits(n: nat) -> Seq<u8>
    decreases n,
{
    if n < 10 {
        seq![(48 + n) as u8]
    } else {
        decimal_digits(n / 10) + seq![(48 + n % 10) as u8]
    }
}

proof fn lemma_decimal_digits(n: nat)
    ensures
        decimal_digits(n).len() > 0,
        all_digits(decimal_digits(n)),
        digits_value(decimal_digits(n)) == n,
    decreases n,
{
    let d = decimal_digits(n);
    if n >= 10 {
        lemma_decimal_digits(n / 10);
        assert(d.drop_last() =~= decimal_digits(n / 10));
        assert forall|k: int| 0 <= k < d.len() implies 48 <= #[trigger] d[k] <= 57 by {
            if k < d.len() - 1 {
                assert(d[k] == decimal_digits(n / 10)[k]);
            }
        }
        assert(d.last() == (48 + n % 10) as u8);
        assert((d.last() - 48) as nat == n % 10);
        assert(digits_value(d) == digits_value(d.drop_last()) * 10 + (d.last() - 48) as nat);
        assert((n / 10) * 10 + n % 10 == n);
    } else {
        assert(d.drop_last() =~= Seq::<u8>::empty());
        assert(digits_value(Seq::<u8>::empty()) == 0);
        assert(digits_value(d) == digits_value(d.drop_last()) * 10 + (d.last() - 48) as nat);
    }
}

proof fn lemma_token_end_digits(s: Seq<u8>, d: nat, i: nat)
    requires
        d <= s.len(),
        i <= d,
        all_digits(s.subrange(0, d as int)),
    ensures
        token_end(s, i) == token_end(s, d),
    decreases d - i,
{
    if i < d {
        assert(s.subrange(0, d as int)[i as int] == s[i as int]);
        assert(space_len(s, i as int) == 0);
        lemma_token_end_digits(s, d, i + 1);
    }
}

proof fn lemma_token_end_no_space(s: Seq<u8>, i: nat)
    requires
        i <= s.len(),
        forall|k: int| i <= k < s.len() ==> space_len(s, k) == 0,
    ensures
        token_end(s, i) == s.len(),
    decreases s.len() - i,
{
    if i < s.len() {
        lemma_token_end_no_space(s, i + 1);
    }
}

/// A request written as the decimal tag, one space and a blob holding no
/// whitespace asks for that tag and for the bytes the blob decodes to: tag
/// `0` for a new session, any other tag for that session.
pub proof fn lemma_session_request_text(n: u32, blob: Seq<u8>)
    requires
        blob.len() > 0,
        forall|k: int| 0 <= k < blob.len() ==> space_len(blob, k) == 0,
    ensures
        split_request_spec(decimal_digits(n as nat) + seq![32u8] + blob) == Ok::<(u32, Seq<u8>), RequestError>(
            (n, blob),
        ),
        session_request_spec(decimal_digits(n as nat) + seq![32u8] + blob) == match base64_decoding(blob) {
            Some(x) => Ok::<(u32, Seq<u8>), RequestError>((n, x)),
            None => Err(RequestError::Base64Decode),
        },
{
    let d = decimal_digits(n as nat);
    lemma_decimal_digits(n as nat);
    let s = d + seq![32u8] + blob;
    let dl = d.len();
    assert(s.subrange(0, dl as int) =~= d);
    assert(s[0] == d[0]);
    assert(space_len(s, 0) == 0);
    assert(skip_space(s, 0) == 0);
    lemma_token_end_digits(s, dl, 0);
    assert(s[dl as int] == 32);
    assert(token_end(s, dl) == dl);
    assert forall|k: int| dl + 1 <= k < s.len() implies space_len(s, k) == 0 by {
        let j = k - dl - 1;
        assert(s[k] == blob[j]);
        if k + 1 < s.len() {
            assert(s[k + 1] == blob[j + 1]);
        }
        if k + 2 < s.len() {
            assert(s[k + 2] == blob[j + 2]);
        }
        assert(space_len(blob, j) == 0);
    }
    assert(space_len(s, (dl + 1) as int) == 0);
    assert(skip_space(s, dl + 1) == dl + 1);
    assert(skip_space(s, dl) == dl + 1);
    lemma_token_end_no_space(s, dl + 1);
    assert(s.subrange(0, dl as int) =~= d);
    assert(s.subrange((dl + 1) as int, s.len() as int) =~= blob);
    assert(d[0] != 43);
    assert(decimal_u32(d) == Some(n));
}

/// What a session request asks for: the tag and the decoded client bytes.
pub open spec fn session_request_spec(s: Seq<u8>) -> Result<(u32, Seq<u8>), RequestError> {
    match split_request_spec(s) {
        Err(e) => Err(e),
        Ok((tag, blob)) => match base64_decoding(blob) {
            None => Err(RequestError::Base64Decode),
            Some(p) => Ok((tag, p)),
        },
    }
}

/// Reads a session request: its tag and the client's bytes.
pub fn parse_session_request(input: &str) -> (r: Result<(u32, Vec<u8>), RequestError>)
    ensures
        match session_request_spec(input.spec_bytes()) {
            Ok((tag, payload)) => r matches Ok((t, p)) && t == tag && p@ == payload,
            Err(e) => r == Err::<(u32, Vec<u8>), RequestError>(e),
        },
{
    match split_session_request(input) {
        Err(e) => Err(e),
        Ok((tag, blob)) => match decode_base64(blob.as_slice()) {
            Ok(p) => Ok((tag, p)),
            Err(_) => Err(RequestError::Base64Decode),
        },
    }
}

// ---------------------------------------------------------------------------
// Responses
// ---------------------------------------------------------------------------

/// The decimal digits of `n`, most significant first.
pub open spec fn decimal_chars(n: nat) -> Seq<char>
    decreases n,
{
    if n < 10 {
        seq![digit_char(n)]
    } else {
        decimal_chars(n / 10) + seq![digit_char(n % 10)]
    }
}

pub open spec fn digit_char(d: nat) -> char {
    (48 + d) as char
}

/// Each part preceded by one space.
pub open spec fn spaced(parts: Seq<Seq<char>>) -> Seq<char>
    decreases parts.len(),
{
    if parts.len() == 0 {
        seq![]
    } else {
        spaced(parts.drop_last()) + seq![' '] + parts.last()
    }
}

fn digit_str(d: u32) -> (r: &'static str)
    requires
        d < 10,
    ensures
        r@ == seq![digit_char(d as nat)],
{
    proof {
        reveal_strlit("0");
        reveal_strlit("1");
        reveal_strlit("2");
        reveal_strlit("3");
        reveal_strlit("4");
        reveal_strlit("5");
        reveal_strlit("6");
        reveal_strlit("7");
        reveal_strlit("8");
        reveal_strlit("9");
    }
    match d {
        0 => "0",
        1 => "1",
        2 => "2",
        3 => "3",
        4 => "4",
        5 => "5",
        6 => "6",
        7 => "7",
        8 => "8",
        _ => "9",
    }
}

fn push_decimal(out: &mut String, n: u32)
    ensures
        final(out)@ == old(out)@ + decimal_chars(n as nat),
    decreases n,
{
    if n >= 10 {
        push_decimal(out, n / 10);
    }
    out.append(digit_str(n % 10));
    assert(out@ =~= old(out)@ + decimal_chars(n as nat));
}

/// The response to a session request, from the session id and the base64
/// text of each outbound chunk.
pub fn format_session_response(session_id: u32, encoded: &Vec<String>) -> (r: String)
    ensures
        r@ == decimal_chars(session_id as nat) + spaced(encoded@.map_values(|e: String| e@)),
{
    let mut out = String::new();
    push_decimal(&mut out, session_id);
    let ghost head = out@;
    proof {
        reveal_strlit(" ");
    }
    let mut i: usize = 0;
    while i < encoded.len()
        invariant
            i <= encoded@.len(),
            head == decimal_chars(session_id as nat),
            " "@ == seq![' '],
            out@ == head + spaced(encoded@.subrange(0, i as int).map_values(|e: String| e@)),
        decreases encoded@.len() - i,
    {
        let ghost prev = encoded@.subrange(0, i as int).map_values(|e: String| e@);
        out.append(" ");
        out.append(encoded[i].as_str());
        i = i + 1;
        let ghost next = encoded@.subrange(0, i as int).map_values(|e: String| e@);
        assert(next.drop_last() =~= prev);
        assert(out@ =~= head + spaced(next));
    }
    assert(encoded@.subrange(0, i as int) =~= encoded@);
    out
}

/// The base64 text of each chunk.
pub open spec fn encoded_chunks(chunks: Seq<Vec<u8>>) -> Seq<Seq<char>> {
    chunks.map_values(|c: Vec<u8>| base64_encoding(c@))
}

/// Whether every chunk can be base64-encoded.
pub open spec fn chunks_encodable(chunks: Seq<Vec<u8>>) -> bool {
    forall|i: int| 0 <= i < chunks.len() ==> base64_encodable(#[trigger] chunks[i]@.len())
}

/// The response to a session request: the session id, then each outbound
/// chunk in base64.
pub fn encode_session_response(session_id: u32, chunks: &Vec<Vec<u8>>) -> (r: String)
    requires
        chunks_encodable(chunks@),
    ensures
        r@ == decimal_chars(session_id as nat) + spaced(encoded_chunks(chunks@)),
{
    let mut encoded: Vec<String> = Vec::new();
    let mut i: usize = 0;
    while i < chunks.len()
        invariant
            i <= chunks@.len(),
            chunks_encodable(chunks@),
            encoded@.len() == i,
            forall|k: int| 0 <= k < i ==> (#[trigger] encoded@[k])@ == base64_encoding(chunks@[k]@),
        decreases chunks@.len() - i,
    {
        let e = encode_base64(chunks[i].as_slice());
        encoded.push(e);
        i = i + 1;
    }
    assert(encoded@.map_values(|e: String| e@) =~= encoded_chunks(chunks@));
    format_session_response(session_id, &encoded)
}

// ---------------------------------------------------------------------------
// Opaque blobs
// ---------------------------------------------------------------------------

/// Reads the body of an opaque-blob request: the whole text is base64.
pub fn decode_opaque_request(input: &str) -> (r: Result<Vec<u8>, RequestError>)
    ensures
        match base64_decoding(input.spec_bytes()) {
            Some(b) => r matches Ok(v) && v@ == b,
            None => r == Err::<Vec<u8>, RequestError>(RequestError::Base64Decode),
        },
{
    match decode_base64(input.as_bytes()) {
        Ok(v) => Ok(v),
        Err(_) => Err(RequestError::Base64Decode),
    }
}

/// The body of an opaque-blob response: the reply in base64, or nothing.
pub fn encode_opaque_response(reply: &Option<Vec<u8>>) -> (r: String)
    requires
        reply matches Some(b) ==> base64_encodable(b@.len()),
    ensures
        match reply {
            Some(b) => r@ == base64_encoding(b@),
            None => r@.len() == 0,
        },
{
    match reply {
        Some(b) => encode_base64(b.as_slice()),
        None => String::new(),
    }
}

} // verus!
