//! The proxy for an initialised enclave instance.

use crate::exchange::{ExchangePhase, TlsExchange};
use crate::message::{decode_spec, encode, encode_spec, Message, MessageView};
use crate::proxy::{
    err_view, expect_close_ack, expect_enclave_cert, expect_enclave_name, expect_psa_token, expect_success,
    expect_tls_session, success_outcome, unexpected, ProxyError,
};
use vstd::prelude::*;

verus! {

/// An enclave instance that accepted its policy. It exists only once the
/// enclave acknowledged initialisation, and it is closed by resetting the
/// enclave.
pub struct SinaloaNitro {
    closed: bool,
}

impl SinaloaNitro {
    pub closed spec fn spec_closed(&self) -> bool {
        self.closed
    }

    /// The request that initialises the enclave with a policy.
    pub fn initialize_request(policy_json: &String) -> (r: Vec<u8>)
        ensures
            r@ == encode_spec(MessageView::Initialize(policy_json@)),
    {
        encode(&Message::Initialize(policy_json.clone()))
    }

    /// Takes the enclave's answer to initialisation: anything but
    /// `Status(Success)` fails construction.
    pub fn new(buf: &[u8]) -> (r: Result<SinaloaNitro, ProxyError>)
        ensures
            err_view(r) == success_outcome(decode_spec(buf@)),
            r matches Ok(p) ==> !p.spec_closed(),
    {
        match expect_success(buf) {
            Ok(()) => Ok(SinaloaNitro { closed: false }),
            Err(e) => Err(e),
        }
    }

    /// The request for the enclave's certificate.
    pub fn get_enclave_cert_request(&self) -> (r: Vec<u8>)
        ensures
            r@ == encode_spec(MessageView::GetEnclaveCert),
    {
        encode(&Message::GetEnclaveCert)
    }

    /// Takes the answer to [`Self::get_enclave_cert_request`].
    pub fn get_enclave_cert(&self, buf: &[u8]) -> (r: Result<Vec<u8>, ProxyError>)
        ensures
            match decode_spec(buf@) {
                Some(MessageView::EnclaveCert(c)) => r is Ok && r->Ok_0@ == c,
                d => r is Err && r->Err_0@ == unexpected(d),
            },
    {
        expect_enclave_cert(buf)
    }

    /// The request for the enclave's name.
    pub fn get_enclave_name_request(&self) -> (r: Vec<u8>)
        ensures
            r@ == encode_spec(MessageView::GetEnclaveName),
    {
        encode(&Message::GetEnclaveName)
    }

    /// Takes the answer to [`Self::get_enclave_name_request`].
    pub fn get_enclave_name(&self, buf: &[u8]) -> (r: Result<String, ProxyError>)
        ensures
            match decode_spec(buf@) {
                Some(MessageView::EnclaveName(n)) => r is Ok && r->Ok_0@ == n,
                d => r is Err && r->Err_0@ == unexpected(d),
            },
    {
        expect_enclave_name(buf)
    }

    /// The request for a proxy attestation token over `challenge`.
    pub fn proxy_psa_attestation_token_request(&self, challenge: Vec<u8>) -> (r: Vec<u8>)
        ensures
            r@ == encode_spec(MessageView::GetPSAAttestationToken(challenge@)),
    {
        encode(&Message::GetPSAAttestationToken(challenge))
    }

    /// Takes the answer to [`Self::proxy_psa_attestation_token_request`]:
    /// the token, the public key and the device id.
    pub fn proxy_psa_attestation_get_token(&self, buf: &[u8]) -> (r: Result<(Vec<u8>, Vec<u8>, i32), ProxyError>)
        ensures
            match decode_spec(buf@) {
                Some(MessageView::PSAAttestationToken(t, k, d)) => r is Ok && r->Ok_0.0@ == t
                    && r->Ok_0.1@ == k && r->Ok_0.2 == d,
                d => r is Err && r->Err_0@ == unexpected(d),
            },
    {
        expect_psa_token(buf)
    }

    /// The request for a new TLS session.
    pub fn new_tls_session_request(&self) -> (r: Vec<u8>)
        ensures
            r@ == encode_spec(MessageView::NewTLSSession),
    {
        encode(&Message::NewTLSSession)
    }

    /// Takes the answer to [`Self::new_tls_session_request`]: the new id.
    pub fn new_tls_session(&self, buf: &[u8]) -> (r: Result<u32, ProxyError>)
        ensures
            match decode_spec(buf@) {
                Some(MessageView::TLSSession(id)) => r == Ok::<u32, ProxyError>(id),
                d => r is Err && r->Err_0@ == unexpected(d),
            },
    {
        expect_tls_session(buf)
    }

    /// The request that closes session `session_id`.
    pub fn close_tls_session_request(&self, session_id: u32) -> (r: Vec<u8>)
        ensures
            r@ == encode_spec(MessageView::CloseTLSSession(session_id)),
    {
        encode(&Message::CloseTLSSession(session_id))
    }

    /// Takes the answer to [`Self::close_tls_session_request`]: any status
    /// acknowledges the close.
    pub fn close_tls_session(&self, buf: &[u8]) -> (r: Result<(), ProxyError>)
        ensures
            match decode_spec(buf@) {
                Some(MessageView::Status(_)) => r is Ok,
                d => r is Err && r->Err_0@ == unexpected(d),
            },
    {
        expect_close_ack(buf)
    }

    /// Starts an exchange of TLS bytes with session `session_id`.
    pub fn tls_data(&self, session_id: u32, input: Vec<u8>) -> (r: (TlsExchange, Vec<u8>))
        ensures
            r.0.spec_session_id() == session_id,
            r.0.spec_phase() == ExchangePhase::AwaitSendAck,
            r.0.spec_alive(),
            r.0.spec_chunks() == Seq::<Seq<u8>>::empty(),
            r.1@ == encode_spec(MessageView::SendTLSData(session_id, input@)),
    {
        TlsExchange::start(session_id, input)
    }

    /// The request that resets the enclave.
    pub fn close_request(&self) -> (r: Vec<u8>)
        ensures
            r@ == encode_spec(MessageView::ResetEnclave),
    {
        encode(&Message::ResetEnclave)
    }

    /// Takes the enclave's answer to the reset. The proxy is closed whatever
    /// the answer: a failed reset is reported but cannot be retried.
    pub fn close(&mut self, buf: &[u8]) -> (r: Result<bool, ProxyError>)
        ensures
            final(self).spec_closed(),
            match success_outcome(decode_spec(buf@)) {
                Ok(()) => r == Ok::<bool, ProxyError>(true),
                Err(e) => r matches Err(f) && f@ == e,
            },
    {
        self.closed = true;
        match expect_success(buf) {
            Ok(()) => Ok(true),
            Err(e) => Err(e),
        }
    }
}

} // verus!
