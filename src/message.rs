//! The messages exchanged with the enclave and their binary wire format.
//!
//! Every message is a tag (a little-endian `u32` naming the variant)
//! followed by its fields in order: `u32` and `i32` as four little-endian
//! bytes, `bool` as one byte `0` or `1`, byte strings and text as an
//! eight-byte little-endian length followed by the bytes (text in UTF-8).
//! A buffer decodes only if it holds exactly one message and nothing more.

use crate::wire::{le_bytes, le_value, pow256, lemma_le_round_trip, lemma_pow256_values, push_le, read_le};
use vstd::prelude::*;
use vstd::utf8::{decode_utf8, encode_utf8, valid_utf8, encode_utf8_decode_utf8, encode_utf8_valid_utf8};

verus! {

/// Outcome code reported by the enclave.
#[derive(Clone, Copy, Debug, PartialEq, Eq, Structural)]
pub enum Status {
    Success,
    Fail,
    Unimplemented,
}

/// A message of the host/enclave channel.
#[derive(Clone, Debug)]
pub enum Message {
    Initialize(String),
    GetEnclaveCert,
    EnclaveCert(Vec<u8>),
    GetEnclaveName,
    EnclaveName(String),
    GetPSAAttestationToken(Vec<u8>),
    PSAAttestationToken(Vec<u8>, Vec<u8>, i32),
    NewTLSSession,
    TLSSession(u32),
    CloseTLSSession(u32),
    SendTLSData(u32, Vec<u8>),
    Status(Status),
    GetTLSData(u32),
    TLSData(Vec<u8>, bool),
    GetTLSDataNeeded(u32),
    TLSDataNeeded(bool),
    ResetEnclave,
    NativeAttestation(Vec<u8>, i32),
    FetchFirmwareVersion,
    FirmwareVersion(String),
    TokenData(Vec<u8>, Vec<u8>),
}

/// The mathematical value of a [`Message`].
pub enum MessageView {
    Initialize(Seq<char>),
    GetEnclaveCert,
    EnclaveCert(Seq<u8>),
    GetEnclaveName,
    EnclaveName(Seq<char>),
    GetPSAAttestationToken(Seq<u8>),
    PSAAttestationToken(Seq<u8>, Seq<u8>, i32),
    NewTLSSession,
    TLSSession(u32),
    CloseTLSSession(u32),
    SendTLSData(u32, Seq<u8>),
    Status(Status),
    GetTLSData(u32),
    TLSData(Seq<u8>, bool),
    GetTLSDataNeeded(u32),
    TLSDataNeeded(bool),
    ResetEnclave,
    NativeAttestation(Seq<u8>, i32),
    FetchFirmwareVersion,
    FirmwareVersion(Seq<char>),
    TokenData(Seq<u8>, Seq<u8>),
}

impl View for Message {
    type V = MessageView;

    open spec fn view(&self) -> MessageView {
        match self {
            Message::Initialize(p) => MessageView::Initialize(p@),
            Message::GetEnclaveCert => MessageView::GetEnclaveCert,
            Message::EnclaveCert(c) => MessageView::EnclaveCert(c@),
            Message::GetEnclaveName => MessageView::GetEnclaveName,
            Message::EnclaveName(n) => MessageView::EnclaveName(n@),
            Message::GetPSAAttestationToken(c) => MessageView::GetPSAAttestationToken(c@),
            Message::PSAAttestationToken(t, k, d) => MessageView::PSAAttestationToken(t@, k@, *d),
            Message::NewTLSSession => MessageView::NewTLSSession,
            Message::TLSSession(id) => MessageView::TLSSession(*id),
            Message::CloseTLSSession(id) => MessageView::CloseTLSSession(*id),
            Message::SendTLSData(id, d) => MessageView::SendTLSData(*id, d@),
            Message::Status(s) => MessageView::Status(*s),
            Message::GetTLSData(id) => MessageView::GetTLSData(*id),
            Message::TLSData(d, a) => MessageView::TLSData(d@, *a),
            Message::GetTLSDataNeeded(id) => MessageView::GetTLSDataNeeded(*id),
            Message::TLSDataNeeded(n) => MessageView::TLSDataNeeded(*n),
            Message::ResetEnclave => MessageView::ResetEnclave,
            Message::NativeAttestation(c, d) => MessageView::NativeAttestation(c@, *d),
            Message::FetchFirmwareVersion => MessageView::FetchFirmwareVersion,
            Message::FirmwareVersion(v) => MessageView::FirmwareVersion(v@),
            Message::TokenData(t, k) => MessageView::TokenData(t@, k@),
        }
    }
}

// ---------------------------------------------------------------------------
// Fields
// ---------------------------------------------------------------------------

pub open spec fn max_len() -> nat {
    0xffff_ffff_ffff_ffff
}

/// The two's-complement bit pattern of `x`, as a number.
pub open spec fn i32_bits(x: i32) -> nat {
    if x >= 0 {
        x as nat
    } else {
        (x + 0x1_0000_0000) as nat
    }
}

/// The `i32` whose bit pattern is `v`.
pub open spec fn i32_of_bits(v: nat) -> i32 {
    if v < 0x8000_0000 {
        v as i32
    } else {
        (v - 0x1_0000_0000) as i32
    }
}

pub open spec fn u32_field(n: u32) -> Seq<u8> {
    le_bytes(n as nat, 4)
}

pub open spec fn i32_field(x: i32) -> Seq<u8> {
    le_bytes(i32_bits(x), 4)
}

pub open spec fn bool_field(b: bool) -> Seq<u8> {
    seq![if b { 1u8 } else { 0u8 }]
}

pub open spec fn bytes_field(b: Seq<u8>) -> Seq<u8> {
    le_bytes(b.len(), 8) + b
}

pub open spec fn text_field(t: Seq<char>) -> Seq<u8> {
    bytes_field(encode_utf8(t))
}

pub open spec fn status_index(s: Status) -> u32 {
    match s {
        Status::Success => 0,
        Status::Fail => 1,
        Status::Unimplemented => 2,
    }
}

pub open spec fn status_field(s: Status) -> Seq<u8> {
    u32_field(status_index(s))
}

/// Splits off `k` bytes read as a little-endian number.
pub open spec fn take_le(s: Seq<u8>, k: nat) -> Option<(nat, Seq<u8>)> {
    if s.len() >= k {
        Some((le_value(s.take(k as int)), s.skip(k as int)))
    } else {
        None
    }
}

pub open spec fn parse_u32(s: Seq<u8>) -> Option<(u32, Seq<u8>)> {
    match take_le(s, 4) {
        Some((v, r)) => Some((v as u32, r)),
        None => None,
    }
}

pub open spec fn parse_i32(s: Seq<u8>) -> Option<(i32, Seq<u8>)> {
    match take_le(s, 4) {
        Some((v, r)) => Some((i32_of_bits(v), r)),
        None => None,
    }
}

pub open spec fn parse_bool(s: Seq<u8>) -> Option<(bool, Seq<u8>)> {
    if s.len() >= 1 && s[0] <= 1 {
        Some((s[0] == 1, s.skip(1)))
    } else {
        None
    }
}

pub open spec fn parse_bytes(s: Seq<u8>) -> Option<(Seq<u8>, Seq<u8>)> {
    match take_le(s, 8) {
        Some((n, r)) => if r.len() >= n {
            Some((r.take(n as int), r.skip(n as int)))
        } else {
            None
        },
        None => None,
    }
}

pub open spec fn parse_text(s: Seq<u8>) -> Option<(Seq<char>, Seq<u8>)> {
    match parse_bytes(s) {
        Some((b, r)) => if valid_utf8(b) {
            Some((decode_utf8(b), r))
        } else {
            None
        },
        None => None,
    }
}

pub open spec fn status_of_index(i: u32) -> Option<Status> {
    if i == 0 {
        Some(Status::Success)
    } else if i == 1 {
        Some(Status::Fail)
    } else if i == 2 {
        Some(Status::Unimplemented)
    } else {
        None
    }
}

pub open spec fn parse_status(s: Seq<u8>) -> Option<(Status, Seq<u8>)> {
    match parse_u32(s) {
        Some((i, r)) => match status_of_index(i) {
            Some(st) => Some((st, r)),
            None => None,
        },
        None => None,
    }
}

// ---------------------------------------------------------------------------
// Messages
// ---------------------------------------------------------------------------

pub open spec fn tag_of(m: MessageView) -> u32 {
    match m {
        MessageView::Initialize(..) => 0,
        MessageView::GetEnclaveCert => 1,
        MessageView::EnclaveCert(..) => 2,
        MessageView::GetEnclaveName => 3,
        MessageView::EnclaveName(..) => 4,
        MessageView::GetPSAAttestationToken(..) => 5,
        MessageView::PSAAttestationToken(..) => 6,
        MessageView::NewTLSSession => 7,
        MessageView::TLSSession(..) => 8,
        MessageView::CloseTLSSession(..) => 9,
        MessageView::SendTLSData(..) => 10,
        MessageView::Status(..) => 11,
        MessageView::GetTLSData(..) => 12,
        MessageView::TLSData(..) => 13,
        MessageView::GetTLSDataNeeded(..) => 14,
        MessageView::TLSDataNeeded(..) => 15,
        MessageView::ResetEnclave => 16,
        MessageView::NativeAttestation(..) => 17,
        MessageView::FetchFirmwareVersion => 18,
        MessageView::FirmwareVersion(..) => 19,
        MessageView::TokenData(..) => 20,
    }
}

/// The fields of a message, in order, after its tag.
pub open spec fn body_of(m: MessageView) -> Seq<u8> {
    match m {
        MessageView::Initialize(p) => text_field(p),
        MessageView::EnclaveCert(c) => bytes_field(c),
        MessageView::EnclaveName(n) => text_field(n),
        MessageView::GetPSAAttestationToken(c) => bytes_field(c),
        MessageView::PSAAttestationToken(t, k, d) => bytes_field(t) + (bytes_field(k) + i32_field(d)),
        MessageView::TLSSession(id) => u32_field(id),
        MessageView::CloseTLSSession(id) => u32_field(id),
        MessageView::SendTLSData(id, d) => u32_field(id) + bytes_field(d),
        MessageView::Status(s) => status_field(s),
        MessageView::GetTLSData(id) => u32_field(id),
        MessageView::TLSData(d, a) => bytes_field(d) + bool_field(a),
        MessageView::GetTLSDataNeeded(id) => u32_field(id),
        MessageView::TLSDataNeeded(n) => bool_field(n),
        MessageView::NativeAttestation(c, d) => bytes_field(c) + i32_field(d),
        MessageView::FirmwareVersion(v) => text_field(v),
        MessageView::TokenData(t, k) => bytes_field(t) + bytes_field(k),
        _ => seq![],
    }
}

/// The wire form of a message.
pub open spec fn encode_spec(m: MessageView) -> Seq<u8> {
    u32_field(tag_of(m)) + body_of(m)
}

/// Byte strings and text short enough for their length to be written.
pub open spec fn valid_message(m: MessageView) -> bool {
    match m {
        MessageView::Initialize(p) => encode_utf8(p).len() <= max_len(),
        MessageView::EnclaveCert(c) => c.len() <= max_len(),
        MessageView::EnclaveName(n) => encode_utf8(n).len() <= max_len(),
        MessageView::GetPSAAttestationToken(c) => c.len() <= max_len(),
        MessageView::PSAAttestationToken(t, k, _) => t.len() <= max_len() && k.len() <= max_len(),
        MessageView::SendTLSData(_, d) => d.len() <= max_len(),
        MessageView::TLSData(d, _) => d.len() <= max_len(),
        MessageView::NativeAttestation(c, _) => c.len() <= max_len(),
        MessageView::FirmwareVersion(v) => encode_utf8(v).len() <= max_len(),
        MessageView::TokenData(t, k) => t.len() <= max_len() && k.len() <= max_len(),
        _ => true,
    }
}

/// Reads the fields of the message with tag `tag` from the front of `s`.
pub open spec fn decode_body(tag: u32, s: Seq<u8>) -> Option<(MessageView, Seq<u8>)> {
    match tag {
        0 => match parse_text(s) {
            Some((p, r)) => Some((MessageView::Initialize(p), r)),
            None => None,
        },
        1 => Some((MessageView::GetEnclaveCert, s)),
        2 => match parse_bytes(s) {
            Some((c, r)) => Some((MessageView::EnclaveCert(c), r)),
            None => None,
        },
        3 => Some((MessageView::GetEnclaveName, s)),
        4 => match parse_text(s) {
            Some((n, r)) => Some((MessageView::EnclaveName(n), r)),
            None => None,
        },
        5 => match parse_bytes(s) {
            Some((c, r)) => Some((MessageView::GetPSAAttestationToken(c), r)),
            None => None,
        },
        6 => match parse_bytes(s) {
            Some((t, r1)) => match parse_bytes(r1) {
                Some((k, r2)) => match parse_i32(r2) {
                    Some((d, r3)) => Some((MessageView::PSAAttestationToken(t, k, d), r3)),
                    None => None,
                },
                None => None,
            },
            None => None,
        },
        7 => Some((MessageView::NewTLSSession, s)),
        8 => match parse_u32(s) {
            Some((id, r)) => Some((MessageView::TLSSession(id), r)),
            None => None,
        },
        9 => match parse_u32(s) {
            Some((id, r)) => Some((MessageView::CloseTLSSession(id), r)),
            None => None,
        },
        10 => match parse_u32(s) {
            Some((id, r1)) => match parse_bytes(r1) {
                Some((d, r2)) => Some((MessageView::SendTLSData(id, d), r2)),
                None => None,
            },
            None => None,
        },
        11 => match parse_status(s) {
            Some((st, r)) => Some((MessageView::Status(st), r)),
            None => None,
        },
        12 => match parse_u32(s) {
            Some((id, r)) => Some((MessageView::GetTLSData(id), r)),
            None => None,
        },
        13 => match parse_bytes(s) {
            Some((d, r1)) => match parse_bool(r1) {
                Some((a, r2)) => Some((MessageView::TLSData(d, a), r2)),
                None => None,
            },
            None => None,
        },
        14 => match parse_u32(s) {
            Some((id, r)) => Some((MessageView::GetTLSDataNeeded(id), r)),
            None => None,
        },
        15 => match parse_bool(s) {
            Some((n, r)) => Some((MessageView::TLSDataNeeded(n), r)),
            None => None,
        },
        16 => Some((MessageView::ResetEnclave, s)),
        17 => match parse_bytes(s) {
            Some((c, r1)) => match parse_i32(r1) {
                Some((d, r2)) => Some((MessageView::NativeAttestation(c, d), r2)),
                None => None,
            },
            None => None,
        },
        18 => Some((MessageView::FetchFirmwareVersion, s)),
        19 => match parse_text(s) {
            Some((v, r)) => Some((MessageView::FirmwareVersion(v), r)),
            None => None,
        },
        20 => match parse_bytes(s) {
            Some((t, r1)) => match parse_bytes(r1) {
                Some((k, r2)) => Some((MessageView::TokenData(t, k), r2)),
                None => None,
            },
            None => None,
        },
        _ => None,
    }
}

/// The message that a buffer holds, if it holds exactly one.
pub open spec fn decode_spec(s: Seq<u8>) -> Option<MessageView> {
    match parse_u32(s) {
        Some((tag, r)) => match decode_body(tag, r) {
            Some((m, rest)) => if rest.len() == 0 {
                Some(m)
            } else {
                None
            },
            None => None,
        },
        None => None,
    }
}

// ---------------------------------------------------------------------------
// Round trip
// ---------------------------------------------------------------------------

proof fn lemma_take_le(n: nat, k: nat, rest: Seq<u8>)
    requires
        n < pow256(k),
    ensures
        take_le(le_bytes(n, k) + rest, k) == Some((n, rest)),
{
    lemma_le_round_trip(n, k);
    let s = le_bytes(n, k) + rest;
    assert(s.take(k as int) =~= le_bytes(n, k));
    assert(s.skip(k as int) =~= rest);
}

proof fn lemma_u32_field(n: u32, rest: Seq<u8>)
    ensures
        parse_u32(u32_field(n) + rest) == Some((n, rest)),
{
    lemma_pow256_values();
    lemma_take_le(n as nat, 4, rest);
}

proof fn lemma_i32_field(x: i32, rest: Seq<u8>)
    ensures
        parse_i32(i32_field(x) + rest) == Some((x, rest)),
{
    lemma_pow256_values();
    lemma_take_le(i32_bits(x), 4, rest);
}

proof fn lemma_bool_field(b: bool, rest: Seq<u8>)
    ensures
        parse_bool(bool_field(b) + rest) == Some((b, rest)),
{
    assert((bool_field(b) + rest).skip(1) =~= rest);
}

proof fn lemma_bytes_field(b: Seq<u8>, rest: Seq<u8>)
    requires
        b.len() <= max_len(),
    ensures
        parse_bytes(bytes_field(b) + rest) == Some((b, rest)),
{
    lemma_pow256_values();
    assert(bytes_field(b) + rest =~= le_bytes(b.len(), 8) + (b + rest));
    lemma_take_le(b.len(), 8, b + rest);
    assert((b + rest).take(b.len() as int) =~= b);
    assert((b + rest).skip(b.len() as int) =~= rest);
}

proof fn lemma_text_field(t: Seq<char>, rest: Seq<u8>)
    requires
        encode_utf8(t).len() <= max_len(),
    ensures
        parse_text(text_field(t) + rest) == Some((t, rest)),
{
    lemma_bytes_field(encode_utf8(t), rest);
    encode_utf8_valid_utf8(t);
    encode_utf8_decode_utf8(t);
}

proof fn lemma_status_field(s: Status, rest: Seq<u8>)
    ensures
        parse_status(status_field(s) + rest) == Some((s, rest)),
{
    lemma_u32_field(status_index(s), rest);
}

/// The body of a message reads back as that message, whatever follows it.
proof fn lemma_body_round_trip(m: MessageView, rest: Seq<u8>)
    requires
        valid_message(m),
    ensures
        decode_body(tag_of(m), body_of(m) + rest) == Some((m, rest)),
{
    match m {
        MessageView::Initialize(p) => lemma_text_field(p, rest),
        MessageView::EnclaveCert(c) => lemma_bytes_field(c, rest),
        MessageView::EnclaveName(n) => lemma_text_field(n, rest),
        MessageView::GetPSAAttestationToken(c) => lemma_bytes_field(c, rest),
        MessageView::PSAAttestationToken(t, k, d) => {
            let r2 = i32_field(d) + rest;
            let r1 = bytes_field(k) + r2;
            assert(body_of(m) + rest =~= bytes_field(t) + r1);
            lemma_bytes_field(t, r1);
            lemma_bytes_field(k, r2);
            lemma_i32_field(d, rest);
        },
        MessageView::TLSSession(id) => lemma_u32_field(id, rest),
        MessageView::CloseTLSSession(id) => lemma_u32_field(id, rest),
        MessageView::SendTLSData(id, d) => {
            let r1 = bytes_field(d) + rest;
            assert(body_of(m) + rest =~= u32_field(id) + r1);
            lemma_u32_field(id, r1);
            lemma_bytes_field(d, rest);
        },
        MessageView::Status(s) => lemma_status_field(s, rest),
        MessageView::GetTLSData(id) => lemma_u32_field(id, rest),
        MessageView::TLSData(d, a) => {
            let r1 = bool_field(a) + rest;
            assert(body_of(m) + rest =~= bytes_field(d) + r1);
            lemma_bytes_field(d, r1);
            lemma_bool_field(a, rest);
        },
        MessageView::GetTLSDataNeeded(id) => lemma_u32_field(id, rest),
        MessageView::TLSDataNeeded(n) => lemma_bool_field(n, rest),
        MessageView::NativeAttestation(c, d) => {
            let r1 = i32_field(d) + rest;
            assert(body_of(m) + rest =~= bytes_field(c) + r1);
            lemma_bytes_field(c, r1);
            lemma_i32_field(d, rest);
        },
        MessageView::FirmwareVersion(v) => lemma_text_field(v, rest),
        MessageView::TokenData(t, k) => {
            let r1 = bytes_field(k) + rest;
            assert(body_of(m) + rest =~= bytes_field(t) + r1);
            lemma_bytes_field(t, r1);
            lemma_bytes_field(k, rest);
        },
        _ => {
            assert(body_of(m) + rest =~= rest);
        },
    }
}

/// Decoding the wire form of a message gives back that message.
pub proof fn lemma_decode_encode(m: MessageView)
    requires
        valid_message(m),
    ensures
        decode_spec(encode_spec(m)) == Some(m),
{
    let empty = Seq::<u8>::empty();
    lemma_body_round_trip(m, empty);
    assert(body_of(m) + empty =~= body_of(m));
    lemma_u32_field(tag_of(m), body_of(m));
}

// ---------------------------------------------------------------------------
// Encoding
// ---------------------------------------------------------------------------

pub open spec fn fst<A, B>(p: (A, B)) -> A {
    p.0
}

pub open spec fn snd<A, B>(p: (A, B)) -> B {
    p.1
}

fn push_bytes(out: &mut Vec<u8>, b: &[u8])
    ensures
        final(out)@ == old(out)@ + b@,
{
    let mut i: usize = 0;
    while i < b.len()
        invariant
            i <= b@.len(),
            out@ == old(out)@ + b@.subrange(0, i as int),
        decreases b@.len() - i,
    {
        out.push(b[i]);
        i = i + 1;
        assert(out@ =~= old(out)@ + b@.subrange(0, i as int));
    }
    assert(b@.subrange(0, i as int) =~= b@);
}

fn push_u32_field(out: &mut Vec<u8>, n: u32)
    ensures
        final(out)@ == old(out)@ + u32_field(n),
{
    proof {
        lemma_pow256_values();
    }
    push_le(out, n as u64, 4);
}

fn push_i32_field(out: &mut Vec<u8>, x: i32)
    ensures
        final(out)@ == old(out)@ + i32_field(x),
{
    proof {
        lemma_pow256_values();
    }
    let bits: u64 = if x >= 0 {
        x as u64
    } else {
        (x as i64 + 0x1_0000_0000) as u64
    };
    push_le(out, bits, 4);
}

fn push_bool_field(out: &mut Vec<u8>, v: bool)
    ensures
        final(out)@ == old(out)@ + bool_field(v),
{
    out.push(if v { 1u8 } else { 0u8 });
    assert(out@ =~= old(out)@ + bool_field(v));
}

fn push_bytes_field(out: &mut Vec<u8>, b: &[u8])
    ensures
        final(out)@ == old(out)@ + bytes_field(b@),
        b@.len() <= max_len(),
{
    proof {
        lemma_pow256_values();
    }
    let n = b.len();
    push_le(out, n as u64, 8);
    push_bytes(out, b);
    assert(out@ =~= old(out)@ + bytes_field(b@));
}

fn push_text_field(out: &mut Vec<u8>, t: &String)
    ensures
        final(out)@ == old(out)@ + text_field(t@),
        encode_utf8(t@).len() <= max_len(),
{
    let b = t.as_str().as_bytes();
    push_bytes_field(out, b);
}

fn push_status_field(out: &mut Vec<u8>, st: Status)
    ensures
        final(out)@ == old(out)@ + status_field(st),
{
    let i: u32 = match st {
        Status::Success => 0,
        Status::Fail => 1,
        Status::Unimplemented => 2,
    };
    push_u32_field(out, i);
}

/// Writes a message in its wire form.
pub fn encode(m: &Message) -> (r: Vec<u8>)
    ensures
        r@ == encode_spec(m@),
        valid_message(m@),
{
    let mut out: Vec<u8> = Vec::new();
    let tag: u32 = match m {
        Message::Initialize(..) => 0,
        Message::GetEnclaveCert => 1,
        Message::EnclaveCert(..) => 2,
        Message::GetEnclaveName => 3,
        Message::EnclaveName(..) => 4,
        Message::GetPSAAttestationToken(..) => 5,
        Message::PSAAttestationToken(..) => 6,
        Message::NewTLSSession => 7,
        Message::TLSSession(..) => 8,
        Message::CloseTLSSession(..) => 9,
        Message::SendTLSData(..) => 10,
        Message::Status(..) => 11,
        Message::GetTLSData(..) => 12,
        Message::TLSData(..) => 13,
        Message::GetTLSDataNeeded(..) => 14,
        Message::TLSDataNeeded(..) => 15,
        Message::ResetEnclave => 16,
        Message::NativeAttestation(..) => 17,
        Message::FetchFirmwareVersion => 18,
        Message::FirmwareVersion(..) => 19,
        Message::TokenData(..) => 20,
    };
    push_u32_field(&mut out, tag);
    let ghost head = out@;
    match m {
        Message::Initialize(p) => push_text_field(&mut out, p),
        Message::EnclaveCert(c) => push_bytes_field(&mut out, c.as_slice()),
        Message::EnclaveName(n) => push_text_field(&mut out, n),
        Message::GetPSAAttestationToken(c) => push_bytes_field(&mut out, c.as_slice()),
        Message::PSAAttestationToken(t, k, d) => {
            push_bytes_field(&mut out, t.as_slice());
            push_bytes_field(&mut out, k.as_slice());
            push_i32_field(&mut out, *d);
        },
        Message::TLSSession(id) => push_u32_field(&mut out, *id),
        Message::CloseTLSSession(id) => push_u32_field(&mut out, *id),
        Message::SendTLSData(id, d) => {
            push_u32_field(&mut out, *id);
            push_bytes_field(&mut out, d.as_slice());
        },
        Message::Status(st) => push_status_field(&mut out, *st),
        Message::GetTLSData(id) => push_u32_field(&mut out, *id),
        Message::TLSData(d, a) => {
            push_bytes_field(&mut out, d.as_slice());
            push_bool_field(&mut out, *a);
        },
        Message::GetTLSDataNeeded(id) => push_u32_field(&mut out, *id),
        Message::TLSDataNeeded(n) => push_bool_field(&mut out, *n),
        Message::NativeAttestation(c, d) => {
            push_bytes_field(&mut out, c.as_slice());
            push_i32_field(&mut out, *d);
        },
        Message::FirmwareVersion(v) => push_text_field(&mut out, v),
        Message::TokenData(t, k) => {
            push_bytes_field(&mut out, t.as_slice());
            push_bytes_field(&mut out, k.as_slice());
        },
        _ => {},
    }
    assert(out@ =~= encode_spec(m@));
    out
}

// ---------------------------------------------------------------------------
// Decoding
// ---------------------------------------------------------------------------

/// Relies on `String::from_utf8`: it accepts exactly the valid UTF-8 byte
/// strings and then holds the characters they encode.
#[verifier::external_body]
fn string_from_utf8(b: Vec<u8>) -> (r: Option<String>)
    ensures
        r is Some <==> valid_utf8(b@),
        r is Some ==> r->0@ == decode_utf8(b@),
{
    match String::from_utf8(b) {
        Ok(s) => Some(s),
        Err(_) => None,
    }
}

pub(crate) fn copy_range(b: &[u8], start: usize, end: usize) -> (r: Vec<u8>)
    requires
        start <= end <= b@.len(),
    ensures
        r@ == b@.subrange(start as int, end as int),
{
    let mut out: Vec<u8> = Vec::new();
    let mut i: usize = start;
    while i < end
        invariant
            start <= i <= end <= b@.len(),
            out@ == b@.subrange(start as int, i as int),
        decreases end - i,
    {
        out.push(b[i]);
        i = i + 1;
        assert(out@ =~= b@.subrange(start as int, i as int));
    }
    out
}

fn read_u32(b: &[u8], pos: usize) -> (r: Option<(u32, usize)>)
    requires
        pos <= b@.len(),
    ensures
        match parse_u32(b@.skip(pos as int)) {
            None => r is None,
            Some((v, rest)) => r is Some && fst(r->0) == v && snd(r->0) <= b@.len() && b@.skip(snd(r->0) as int) == rest,
        },
{
    if b.len() - pos < 4 {
        return None;
    }
    let v = read_le(b, pos, 4);
    assert(b@.skip(pos as int).take(4) =~= b@.subrange(pos as int, pos + 4));
    assert(b@.skip(pos as int).skip(4) =~= b@.skip(pos + 4));
    Some((v as u32, pos + 4))
}

fn read_i32(b: &[u8], pos: usize) -> (r: Option<(i32, usize)>)
    requires
        pos <= b@.len(),
    ensures
        match parse_i32(b@.skip(pos as int)) {
            None => r is None,
            Some((v, rest)) => r is Some && fst(r->0) == v && snd(r->0) <= b@.len() && b@.skip(snd(r->0) as int) == rest,
        },
{
    if b.len() - pos < 4 {
        return None;
    }
    let v = read_le(b, pos, 4);
    assert(b@.skip(pos as int).take(4) =~= b@.subrange(pos as int, pos + 4));
    assert(b@.skip(pos as int).skip(4) =~= b@.skip(pos + 4));
    proof {
        crate::wire::lemma_le_value_bound(b@.subrange(pos as int, pos + 4));
        lemma_pow256_values();
    }
    let x: i32 = if v < 0x8000_0000 {
        v as i32
    } else {
        (v as i64 - 0x1_0000_0000) as i32
    };
    Some((x, pos + 4))
}

fn read_bool(b: &[u8], pos: usize) -> (r: Option<(bool, usize)>)
    requires
        pos <= b@.len(),
    ensures
        match parse_bool(b@.skip(pos as int)) {
            None => r is None,
            Some((v, rest)) => r is Some && fst(r->0) == v && snd(r->0) <= b@.len() && b@.skip(snd(r->0) as int) == rest,
        },
{
    if pos >= b.len() || b[pos] > 1 {
        return None;
    }
    assert(b@.skip(pos as int).skip(1) =~= b@.skip(pos + 1));
    Some((b[pos] == 1, pos + 1))
}

fn read_bytes(b: &[u8], pos: usize) -> (r: Option<(Vec<u8>, usize)>)
    requires
        pos <= b@.len(),
    ensures
        match parse_bytes(b@.skip(pos as int)) {
            None => r is None,
            Some((v, rest)) => r is Some && fst(r->0)@ == v && snd(r->0) <= b@.len() && b@.skip(snd(r->0) as int) == rest,
        },
{
    if b.len() - pos < 8 {
        return None;
    }
    let n = read_le(b, pos, 8);
    let ghost s = b@.skip(pos as int);
    assert(s.take(8) =~= b@.subrange(pos as int, pos + 8));
    assert(s.skip(8) =~= b@.skip(pos + 8));
    let start = pos + 8;
    if n > (b.len() - start) as u64 {
        return None;
    }
    let end = start + n as usize;
    let v = copy_range(b, start, end);
    assert(s.skip(8).take(n as int) =~= b@.subrange(start as int, end as int));
    assert(s.skip(8).skip(n as int) =~= b@.skip(end as int));
    Some((v, end))
}

fn read_text(b: &[u8], pos: usize) -> (r: Option<(String, usize)>)
    requires
        pos <= b@.len(),
    ensures
        match parse_text(b@.skip(pos as int)) {
            None => r is None,
            Some((v, rest)) => r is Some && fst(r->0)@ == v && snd(r->0) <= b@.len() && b@.skip(snd(r->0) as int) == rest,
        },
{
    match read_bytes(b, pos) {
        None => None,
        Some((v, end)) => match string_from_utf8(v) {
            None => None,
            Some(t) => Some((t, end)),
        },
    }
}

fn read_status(b: &[u8], pos: usize) -> (r: Option<(Status, usize)>)
    requires
        pos <= b@.len(),
    ensures
        match parse_status(b@.skip(pos as int)) {
            None => r is None,
            Some((v, rest)) => r is Some && fst(r->0) == v && snd(r->0) <= b@.len() && b@.skip(snd(r->0) as int) == rest,
        },
{
    match read_u32(b, pos) {
        None => None,
        Some((i, end)) => if i == 0 {
            Some((Status::Success, end))
        } else if i == 1 {
            Some((Status::Fail, end))
        } else if i == 2 {
            Some((Status::Unimplemented, end))
        } else {
            None
        },
    }
}

/// Reads the fields of the message with tag `tag` starting at `pos`.
fn read_body(b: &[u8], tag: u32, pos: usize) -> (r: Option<(Message, usize)>)
    requires
        pos <= b@.len(),
    ensures
        match decode_body(tag, b@.skip(pos as int)) {
            None => r is None,
            Some((m, rest)) => r is Some && fst(r->0)@ == m && snd(r->0) <= b@.len() && b@.skip(snd(r->0) as int) == rest,
        },
{
    match tag {
        0 => match read_text(b, pos) {
            Some((p, e)) => Some((Message::Initialize(p), e)),
            None => None,
        },
        1 => Some((Message::GetEnclaveCert, pos)),
        2 => match read_bytes(b, pos) {
            Some((c, e)) => Some((Message::EnclaveCert(c), e)),
            None => None,
        },
        3 => Some((Message::GetEnclaveName, pos)),
        4 => match read_text(b, pos) {
            Some((n, e)) => Some((Message::EnclaveName(n), e)),
            None => None,
        },
        5 => match read_bytes(b, pos) {
            Some((c, e)) => Some((Message::GetPSAAttestationToken(c), e)),
            None => None,
        },
        6 => match read_bytes(b, pos) {
            Some((t, e1)) => match read_bytes(b, e1) {
                Some((k, e2)) => match read_i32(b, e2) {
                    Some((d, e3)) => Some((Message::PSAAttestationToken(t, k, d), e3)),
                    None => None,
                },
                None => None,
            },
            None => None,
        },
        7 => Some((Message::NewTLSSession, pos)),
        8 => match read_u32(b, pos) {
            Some((id, e)) => Some((Message::TLSSession(id), e)),
            None => None,
        },
        9 => match read_u32(b, pos) {
            Some((id, e)) => Some((Message::CloseTLSSession(id), e)),
            None => None,
        },
        10 => match read_u32(b, pos) {
            Some((id, e1)) => match read_bytes(b, e1) {
                Some((d, e2)) => Some((Message::SendTLSData(id, d), e2)),
                None => None,
            },
            None => None,
        },
        11 => match read_status(b, pos) {
            Some((st, e)) => Some((Message::Status(st), e)),
            None => None,
        },
        12 => match read_u32(b, pos) {
            Some((id, e)) => Some((Message::GetTLSData(id), e)),
            None => None,
        },
        13 => match read_bytes(b, pos) {
            Some((d, e1)) => match read_bool(b, e1) {
                Some((a, e2)) => Some((Message::TLSData(d, a), e2)),
                None => None,
            },
            None => None,
        },
        14 => match read_u32(b, pos) {
            Some((id, e)) => Some((Message::GetTLSDataNeeded(id), e)),
            None => None,
        },
        15 => match read_bool(b, pos) {
            Some((n, e)) => Some((Message::TLSDataNeeded(n), e)),
            None => None,
        },
        16 => Some((Message::ResetEnclave, pos)),
        17 => match read_bytes(b, pos) {
            Some((c, e1)) => match read_i32(b, e1) {
                Some((d, e2)) => Some((Message::NativeAttestation(c, d), e2)),
                None => None,
            },
            None => None,
        },
        18 => Some((Message::FetchFirmwareVersion, pos)),
        19 => match read_text(b, pos) {
            Some((v, e)) => Some((Message::FirmwareVersion(v), e)),
            None => None,
        },
        20 => match read_bytes(b, pos) {
            Some((t, e1)) => match read_bytes(b, e1) {
                Some((k, e2)) => Some((Message::TokenData(t, k), e2)),
                None => None,
            },
            None => None,
        },
        _ => None,
    }
}

/// Reads the one message that a buffer holds.
pub fn decode(b: &[u8]) -> (r: Option<Message>)
    ensures
        match decode_spec(b@) {
            None => r is None,
            Some(m) => r is Some && r->0@ == m,
        },
{
    assert(b@.skip(0) =~= b@);
    match read_u32(b, 0) {
        None => None,
        Some((tag, pos)) => match read_body(b, tag, pos) {
            None => None,
            Some((m, end)) => if end == b.len() {
                Some(m)
            } else {
                None
            },
        },
    }
}

} // verus!
