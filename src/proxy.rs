//! Typed request/response pairs of the enclave operations.
//!
//! Every enclave operation sends one request message and reads back one
//! response. The functions here interpret a response buffer: the expected
//! tag yields the operation's result, any other message is a protocol
//! violation, and a buffer that does not decode is reported as such.

use crate::message::{decode, decode_spec, Message, MessageView, Status};
use vstd::prelude::*;

verus! {

/// Why an enclave response was refused.
#[derive(Clone, Debug)]
pub enum ProxyError {
    /// The buffer does not hold exactly one well-formed message.
    DecodeError,
    /// A well-formed message with a tag other than the one expected.
    InvalidMessage(Message),
    /// A status other than success where success was required.
    StatusError(Status),
    /// The enclave refused the data sent to this session, with this status.
    SessionStatusError(u32, Status),
}

pub enum ProxyErrorView {
    DecodeError,
    InvalidMessage(MessageView),
    StatusError(Status),
    SessionStatusError(u32, Status),
}

impl View for ProxyError {
    type V = ProxyErrorView;

    open spec fn view(&self) -> ProxyErrorView {
        match self {
            ProxyError::DecodeError => ProxyErrorView::DecodeError,
            ProxyError::InvalidMessage(m) => ProxyErrorView::InvalidMessage(m@),
            ProxyError::StatusError(s) => ProxyErrorView::StatusError(*s),
            ProxyError::SessionStatusError(id, s) => ProxyErrorView::SessionStatusError(*id, *s),
        }
    }
}

/// The error for a response that is not the one expected.
pub open spec fn unexpected(d: Option<MessageView>) -> ProxyErrorView {
    match d {
        Some(m) => ProxyErrorView::InvalidMessage(m),
        None => ProxyErrorView::DecodeError,
    }
}

/// What an operation that must end in `Status(Success)` makes of a response.
pub open spec fn success_outcome(d: Option<MessageView>) -> Result<(), ProxyErrorView> {
    match d {
        Some(MessageView::Status(Status::Success)) => Ok(()),
        Some(MessageView::Status(s)) => Err(ProxyErrorView::StatusError(s)),
        _ => Err(unexpected(d)),
    }
}

pub open spec fn err_view<T>(r: Result<T, ProxyError>) -> Result<(), ProxyErrorView> {
    match r {
        Ok(_) => Ok(()),
        Err(e) => Err(e@),
    }
}

fn unexpected_error(d: Option<Message>) -> (e: ProxyError)
    ensures
        e@ == unexpected(match d {
            Some(m) => Some(m@),
            None => None,
        }),
{
    match d {
        Some(m) => ProxyError::InvalidMessage(m),
        None => ProxyError::DecodeError,
    }
}

/// Interprets the response to a request that must succeed (initialisation,
/// sending TLS data, resetting the enclave).
pub fn expect_success(buf: &[u8]) -> (r: Result<(), ProxyError>)
    ensures
        err_view(r) == success_outcome(decode_spec(buf@)),
{
    match decode(buf) {
        Some(Message::Status(Status::Success)) => Ok(()),
        Some(Message::Status(s)) => Err(ProxyError::StatusError(s)),
        d => Err(unexpected_error(d)),
    }
}

/// Interprets the response to a request for the enclave's certificate.
pub fn expect_enclave_cert(buf: &[u8]) -> (r: Result<Vec<u8>, ProxyError>)
    ensures
        match decode_spec(buf@) {
            Some(MessageView::EnclaveCert(c)) => r is Ok && r->Ok_0@ == c,
            d => r is Err && r->Err_0@ == unexpected(d),
        },
{
    match decode(buf) {
        Some(Message::EnclaveCert(c)) => Ok(c),
        d => Err(unexpected_error(d)),
    }
}

/// Interprets the response to a request for the enclave's name.
pub fn expect_enclave_name(buf: &[u8]) -> (r: Result<String, ProxyError>)
    ensures
        match decode_spec(buf@) {
            Some(MessageView::EnclaveName(n)) => r is Ok && r->Ok_0@ == n,
            d => r is Err && r->Err_0@ == unexpected(d),
        },
{
    match decode(buf) {
        Some(Message::EnclaveName(n)) => Ok(n),
        d => Err(unexpected_error(d)),
    }
}

/// Interprets the response to a request for a proxy attestation token:
/// the token, the public key and the device id.
pub fn expect_psa_token(buf: &[u8]) -> (r: Result<(Vec<u8>, Vec<u8>, i32), ProxyError>)
    ensures
        match decode_spec(buf@) {
            Some(MessageView::PSAAttestationToken(t, k, d)) => r is Ok && r->Ok_0.0@ == t
                && r->Ok_0.1@ == k && r->Ok_0.2 == d,
            d => r is Err && r->Err_0@ == unexpected(d),
        },
{
    match decode(buf) {
        Some(Message::PSAAttestationToken(t, k, d)) => Ok((t, k, d)),
        d => Err(unexpected_error(d)),
    }
}

/// Interprets the response to a request for a new TLS session.
pub fn expect_tls_session(buf: &[u8]) -> (r: Result<u32, ProxyError>)
    ensures
        match decode_spec(buf@) {
            Some(MessageView::TLSSession(id)) => r == Ok::<u32, ProxyError>(id),
            d => r is Err && r->Err_0@ == unexpected(d),
        },
{
    match decode(buf) {
        Some(Message::TLSSession(id)) => Ok(id),
        d => Err(unexpected_error(d)),
    }
}

/// Interprets the response to closing a TLS session: any status
/// acknowledges the close.
pub fn expect_close_ack(buf: &[u8]) -> (r: Result<(), ProxyError>)
    ensures
        match decode_spec(buf@) {
            Some(MessageView::Status(_)) => r is Ok,
            d => r is Err && r->Err_0@ == unexpected(d),
        },
{
    match decode(buf) {
        Some(Message::Status(_)) => Ok(()),
        d => Err(unexpected_error(d)),
    }
}

/// Interprets the response to a request for pending TLS data: the chunk and
/// whether the session is still alive.
pub fn expect_tls_data(buf: &[u8]) -> (r: Result<(Vec<u8>, bool), ProxyError>)
    ensures
        match decode_spec(buf@) {
            Some(MessageView::TLSData(d, a)) => r is Ok && r->Ok_0.0@ == d && r->Ok_0.1 == a,
            d => r is Err && r->Err_0@ == unexpected(d),
        },
{
    match decode(buf) {
        Some(Message::TLSData(d, a)) => Ok((d, a)),
        d => Err(unexpected_error(d)),
    }
}

/// Interprets the response to asking whether TLS data is pending.
pub fn expect_tls_data_needed(buf: &[u8]) -> (r: Result<bool, ProxyError>)
    ensures
        match decode_spec(buf@) {
            Some(MessageView::TLSDataNeeded(n)) => r is Ok && r->Ok_0 == n,
            d => r is Err && r->Err_0@ == unexpected(d),
        },
{
    match decode(buf) {
        Some(Message::TLSDataNeeded(n)) => Ok(n),
        d => Err(unexpected_error(d)),
    }
}

/// Interprets the response to a request for the firmware version.
pub fn expect_firmware_version(buf: &[u8]) -> (r: Result<String, ProxyError>)
    ensures
        match decode_spec(buf@) {
            Some(MessageView::FirmwareVersion(v)) => r is Ok && r->Ok_0@ == v,
            d => r is Err && r->Err_0@ == unexpected(d),
        },
{
    match decode(buf) {
        Some(Message::FirmwareVersion(v)) => Ok(v),
        d => Err(unexpected_error(d)),
    }
}

/// Interprets the response to a native attestation request: the token and
/// the public key.
pub fn expect_token_data(buf: &[u8]) -> (r: Result<(Vec<u8>, Vec<u8>), ProxyError>)
    ensures
        match decode_spec(buf@) {
            Some(MessageView::TokenData(t, k)) => r is Ok && r->Ok_0.0@ == t && r->Ok_0.1@ == k,
            d => r is Err && r->Err_0@ == unexpected(d),
        },
{
    match decode(buf) {
        Some(Message::TokenData(t, k)) => Ok((t, k)),
        d => Err(unexpected_error(d)),
    }
}

} // verus!
