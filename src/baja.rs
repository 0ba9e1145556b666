//! TLS server sessions whose decrypted data is gated by the principal
//! registry.

use crate::registry::{delivery_view, plaintext_outcome, AuthError, PrincipalRegistry, Role};
use vstd::prelude::*;

verus! {

#[verifier::external_type_specification]
#[verifier::external_body]
pub struct ExServerSession(rustls::ServerSession);

#[verifier::external_type_specification]
#[verifier::external_body]
pub struct ExServerConfig(rustls::ServerConfig);

#[verifier::external_type_specification]
#[verifier::external_body]
pub struct ExTlsError(rustls::TLSError);

#[verifier::external_type_specification]
#[verifier::external_body]
pub struct ExIoError(std::io::Error);

/// Relies on `rustls::ServerSession::new`: a fresh server session for the
/// configuration.
#[verifier::external_body]
fn new_server_session(config: rustls::ServerConfig) -> rustls::ServerSession {
    rustls::ServerSession::new(&std::sync::Arc::new(config))
}

/// Relies on `rustls::Session::read_tls`: hands TLS records to the session.
#[verifier::external_body]
fn session_read_tls(s: &mut rustls::ServerSession, input: &[u8]) -> Result<usize, std::io::Error> {
    let mut slice = input;
    rustls::Session::read_tls(s, &mut slice)
}

/// Relies on `rustls::Session::process_new_packets`: processes the records
/// read so far.
#[verifier::external_body]
fn session_process_new_packets(s: &mut rustls::ServerSession) -> Result<(), rustls::TLSError> {
    rustls::Session::process_new_packets(s)
}

/// Relies on `std::io::Write::write_all` for the session: queues plaintext
/// to be encrypted.
#[verifier::external_body]
fn session_write_all(s: &mut rustls::ServerSession, input: &[u8]) -> Result<(), std::io::Error> {
    std::io::Write::write_all(s, input)
}

/// Relies on `rustls::Session::wants_write`: whether TLS bytes are waiting
/// to be sent.
#[verifier::external_body]
fn session_wants_write(s: &rustls::ServerSession) -> bool {
    rustls::Session::wants_write(s)
}

/// Relies on `rustls::Session::write_tls`: the TLS bytes waiting to be sent.
#[verifier::external_body]
fn session_write_tls(s: &mut rustls::ServerSession) -> Result<Vec<u8>, std::io::Error> {
    let mut output = Vec::new();
    match rustls::Session::write_tls(s, &mut output) {
        Ok(_) => Ok(output),
        Err(e) => Err(e),
    }
}

/// Relies on `std::io::Read::read_to_end` for the session: the decrypted
/// data received so far.
#[verifier::external_body]
fn session_read_to_end(s: &mut rustls::ServerSession) -> Result<Vec<u8>, std::io::Error> {
    let mut received = Vec::new();
    match std::io::Read::read_to_end(s, &mut received) {
        Ok(_) => Ok(received),
        Err(e) => Err(e),
    }
}

/// Relies on `rustls::Session::get_peer_certificates`: the certificates the
/// client presented, each as its DER bytes.
#[verifier::external_body]
fn session_peer_certificates(s: &rustls::ServerSession) -> Option<Vec<Vec<u8>>> {
    match rustls::Session::get_peer_certificates(s) {
        Some(certs) => Some(certs.into_iter().map(|c| c.0).collect()),
        None => None,
    }
}

/// Relies on `rustls::Session::is_handshaking`: whether the handshake is
/// still under way.
#[verifier::external_body]
fn session_is_handshaking(s: &rustls::ServerSession) -> bool {
    rustls::Session::is_handshaking(s)
}

/// Why a session operation failed.
#[derive(Debug)]
pub enum BajaError {
    Io(std::io::Error),
    Tls(rustls::TLSError),
    Auth(AuthError),
}

/// A TLS server session together with the principals allowed to use it.
pub struct BajaSession {
    tls_session: rustls::ServerSession,
    principals: PrincipalRegistry,
}

impl BajaSession {
    pub closed spec fn spec_principals(&self) -> PrincipalRegistry {
        self.principals
    }

    /// A fresh session under `config`, for the principals of `principals`.
    pub fn new(config: rustls::ServerConfig, principals: PrincipalRegistry) -> (r: BajaSession)
        ensures
            r.spec_principals() == principals,
    {
        BajaSession { tls_session: new_server_session(config), principals }
    }

    /// Hands the client's TLS bytes to the session and processes them.
    pub fn send_tls_data(&mut self, input: &Vec<u8>) -> (r: Result<(), BajaError>)
        ensures
            final(self).spec_principals() == old(self).spec_principals(),
    {
        match session_read_tls(&mut self.tls_session, input.as_slice()) {
            Err(e) => return Err(BajaError::Io(e)),
            Ok(_) => {},
        }
        match session_process_new_packets(&mut self.tls_session) {
            Err(e) => Err(BajaError::Tls(e)),
            Ok(()) => Ok(()),
        }
    }

    /// Queues `input` to be sent to the client over the session.
    pub fn return_data(&mut self, input: &[u8]) -> (r: Result<(), BajaError>)
        ensures
            final(self).spec_principals() == old(self).spec_principals(),
    {
        match session_write_all(&mut self.tls_session, input) {
            Err(e) => Err(BajaError::Io(e)),
            Ok(()) => Ok(()),
        }
    }

    /// The TLS bytes waiting to be sent to the client, `None` if there are
    /// none.
    pub fn read_tls_data(&mut self) -> (r: Result<Option<Vec<u8>>, BajaError>)
        ensures
            final(self).spec_principals() == old(self).spec_principals(),
    {
        if session_wants_write(&self.tls_session) {
            match session_write_tls(&mut self.tls_session) {
                Ok(output) => Ok(Some(output)),
                Err(e) => Err(BajaError::Io(e)),
            }
        } else {
            Ok(None)
        }
    }

    /// The decrypted data received from the client, with the id and roles
    /// of the principal whose certificate the client presented. Data from
    /// an unknown certificate, or from a principal without roles, is
    /// refused.
    pub fn read_plaintext_data(&mut self) -> (r: Result<Option<(u32, Vec<Role>, Vec<u8>)>, BajaError>)
        requires
            old(self).spec_principals().wf(),
        ensures
            final(self).spec_principals() == old(self).spec_principals(),
            r matches Ok(x) ==> exists|certs: Option<Seq<Seq<u8>>>, data: Seq<u8>|
                #[trigger] plaintext_outcome(old(self).spec_principals(), certs, data) == delivery_view(
                    Ok::<Option<(u32, Vec<Role>, Vec<u8>)>, AuthError>(x),
                ),
            r matches Err(BajaError::Auth(e)) ==> exists|certs: Option<Seq<Seq<u8>>>, data: Seq<u8>|
                #[trigger] plaintext_outcome(old(self).spec_principals(), certs, data) == Err::<
                    Option<(u32, Seq<Role>, Seq<u8>)>,
                    AuthError,
                >(e),
            r matches Ok(Some((id, roles, data))) ==> data@.len() > 0 && roles@.len() > 0 && exists|i: int|
                0 <= i < final(self).spec_principals().spec_principals().len()
                    && #[trigger] final(self).spec_principals().spec_principals()[i].spec_id() == id
                    && final(self).spec_principals().spec_principals()[i].spec_roles() == roles@,
    {
        let data = match session_read_to_end(&mut self.tls_session) {
            Ok(d) => d,
            Err(e) => return Err(BajaError::Io(e)),
        };
        let certs = if data.len() > 0 {
            session_peer_certificates(&self.tls_session)
        } else {
            None
        };
        let ghost c = certs;
        let ghost dv = data@;
        let r = self.principals.authorize_plaintext(certs, data);
        proof {
            let cv = crate::registry::certs_view(c);
            let reg = self.principals;
            assert(plaintext_outcome(reg, cv, dv) == delivery_view(r));
            match r {
                Ok(Some((id, _, _))) => {
                    let cert = cv->0[0];
                    let i = choose|i: int|
                        0 <= i < reg.spec_principals().len()
                            && #[trigger] reg.spec_principals()[i].spec_certificate() == cert;
                    assert(reg.spec_principals()[i].spec_id() == id);
                },
                _ => {},
            }
        }
        match r {
            Ok(x) => Ok(x),
            Err(e) => Err(BajaError::Auth(e)),
        }
    }

    /// Whether TLS bytes are waiting to be sent to the client.
    pub fn read_tls_needed(&self) -> bool {
        session_wants_write(&self.tls_session)
    }

    /// Whether the handshake is over, and with it authentication.
    pub fn is_authenticated(&self) -> bool {
        !session_is_handshaking(&self.tls_session)
    }
}

} // verus!
