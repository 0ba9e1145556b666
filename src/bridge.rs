//! The host bridge: the decisions behind the session endpoint.
//!
//! A request names a session (`0` for a new one) and carries client TLS
//! bytes. The bridge allocates the session if asked, the caller runs the
//! [`TlsExchange`](crate::exchange::TlsExchange) with the enclave, and the
//! bridge turns the outcome into the response. When the enclave reports
//! that the session is no longer alive the bridge retires: the enclave is
//! reset, the final response is still returned, and no request is served
//! afterwards.

use crate::attestation::{Handshake, HandshakePhase};
use crate::message::{encode, encode_spec, Message, MessageView, decode_spec};
use crate::proxy::{expect_tls_session, unexpected, ProxyError};
use crate::sessions::{SessionError, SessionTable};
use crate::text::{
    chunks_encodable, decimal_chars, encode_session_response, encoded_chunks, parse_session_request,
    session_request_spec, spaced, RequestError, base64_encodable,
};
use vstd::prelude::*;
use vstd::string::StringSliceAdditionalSpecFns;

verus! {

/// Why a request was refused.
#[derive(Clone, Debug)]
pub enum BridgeError {
    /// The enclave has not completed attestation.
    NotAttested,
    /// The enclave was retired; no request is served any more.
    Retired,
    /// The request is malformed.
    Request(RequestError),
    /// The enclave's response was refused.
    Proxy(ProxyError),
    /// The enclave allocated an id that cannot be live.
    Session(SessionError),
    /// An outbound chunk is too large to be base64-encoded.
    ChunkTooLarge,
}

/// What a well-formed request asks for.
#[derive(Debug)]
pub enum SessionPlan {
    /// Allocate a session, then send it these bytes.
    NewSession(Vec<u8>),
    /// Send these bytes to this live session.
    Existing(u32, Vec<u8>),
}

/// How a request ends once its exchange is complete.
#[derive(Debug)]
pub enum Completion {
    /// Return this response.
    Reply(String),
    /// Send the enclave the reset request (its outcome is only logged),
    /// return the response and shut the bridge down.
    Shutdown(String, Vec<u8>),
}

/// The bridge's state: whether it was retired and which sessions are live.
pub struct Bridge {
    retired: bool,
    sessions: SessionTable,
}

impl Bridge {
    pub closed spec fn spec_retired(&self) -> bool {
        self.retired
    }

    pub closed spec fn spec_sessions(&self) -> SessionTable {
        self.sessions
    }

    pub open spec fn wf(&self) -> bool {
        self.spec_sessions().wf()
    }

    /// Opens the bridge over an enclave whose handshake is complete; any
    /// other handshake state is refused.
    pub fn new(handshake: &Handshake) -> (r: Result<Bridge, BridgeError>)
        ensures
            r is Ok <==> handshake.spec_phase() == HandshakePhase::Ready,
            r matches Err(e) ==> e is NotAttested,
            r matches Ok(b) ==> b.wf() && !b.spec_retired() && b.spec_sessions().live_set() == Set::<
                u32,
            >::empty(),
    {
        if !handshake.is_ready() {
            return Err(BridgeError::NotAttested);
        }
        Ok(Bridge { retired: false, sessions: SessionTable::new() })
    }

    pub fn is_retired(&self) -> (r: bool)
        ensures
            r == self.spec_retired(),
    {
        self.retired
    }

    pub fn sessions(&self) -> (r: &SessionTable)
        ensures
            r == self.spec_sessions(),
    {
        &self.sessions
    }

    /// Reads a request `{session_tag} {base64_blob}`. The returned bytes,
    /// if any, ask the enclave for a new session.
    pub fn begin_request(&self, input: &str) -> (r: Result<(SessionPlan, Option<Vec<u8>>), BridgeError>)
        ensures
            self.spec_retired() ==> r matches Err(BridgeError::Retired),
            !self.spec_retired() ==> match session_request_spec(input.spec_bytes()) {
                Err(e) => r matches Err(BridgeError::Request(f)) && f == e,
                Ok((tag, payload)) => if tag == 0 {
                    r matches Ok((SessionPlan::NewSession(p), Some(req))) && p@ == payload
                        && req@ == encode_spec(MessageView::NewTLSSession)
                } else {
                    r matches Ok((SessionPlan::Existing(id, p), None)) && id == tag && p@ == payload
                },
            },
    {
        if self.retired {
            return Err(BridgeError::Retired);
        }
        match parse_session_request(input) {
            Err(e) => Err(BridgeError::Request(e)),
            Ok((tag, payload)) => if tag == 0 {
                Ok((SessionPlan::NewSession(payload), Some(encode(&Message::NewTLSSession))))
            } else {
                Ok((SessionPlan::Existing(tag, payload), None))
            },
        }
    }

    /// Takes the enclave's answer to a new-session request and records the
    /// id it allocated.
    pub fn on_new_session(&mut self, buf: &[u8]) -> (r: Result<u32, BridgeError>)
        requires
            old(self).wf(),
        ensures
            final(self).wf(),
            final(self).spec_retired() == old(self).spec_retired(),
            match decode_spec(buf@) {
                Some(MessageView::TLSSession(id)) => if id == 0 {
                    r matches Err(BridgeError::Session(SessionError::ReservedSessionId))
                } else if old(self).spec_sessions().live_set().contains(id) {
                    r matches Err(BridgeError::Session(SessionError::SessionIdInUse(i))) && i == id
                } else {
                    r matches Ok(i) && i == id
                },
                d => r matches Err(BridgeError::Proxy(e)) && e@ == unexpected(d),
            },
            r is Ok ==> final(self).spec_sessions().live_set() == old(self).spec_sessions().live_set().insert(
                r->Ok_0,
            ),
            r is Err ==> final(self).spec_sessions().live_set() == old(self).spec_sessions().live_set(),
    {
        match expect_tls_session(buf) {
            Err(e) => Err(BridgeError::Proxy(e)),
            Ok(id) => match self.sessions.register(id) {
                Err(e) => Err(BridgeError::Session(e)),
                Ok(()) => Ok(id),
            },
        }
    }

    /// Turns the outcome of an exchange with session `session_id` into the
    /// response. A session that is no longer alive retires the bridge: its
    /// id is released and the enclave is to be reset.
    pub fn finish_exchange(&mut self, session_id: u32, still_alive: bool, chunks: &Vec<Vec<u8>>) -> (r: Result<
        Completion,
        BridgeError,
    >)
        requires
            old(self).wf(),
        ensures
            final(self).wf(),
            !chunks_encodable(chunks@) ==> (r matches Err(BridgeError::ChunkTooLarge) && *final(self)
                == *old(self)),
            chunks_encodable(chunks@) ==> {
                let text = decimal_chars(session_id as nat) + spaced(encoded_chunks(chunks@));
                if still_alive {
                    &&& r matches Ok(Completion::Reply(s)) && s@ == text
                    &&& *final(self) == *old(self)
                } else {
                    &&& r matches Ok(Completion::Shutdown(s, req)) && s@ == text && req@ == encode_spec(
                        MessageView::ResetEnclave,
                    )
                    &&& final(self).spec_retired()
                    &&& final(self).spec_sessions().live_set() == old(self).spec_sessions().live_set().remove(
                        session_id,
                    )
                }
            },
    {
        let mut i: usize = 0;
        while i < chunks.len()
            invariant
                self.wf(),
                i <= chunks@.len(),
                forall|k: int| 0 <= k < i ==> base64_encodable(#[trigger] chunks@[k]@.len()),
            decreases chunks@.len() - i,
        {
            let q: u128 = (chunks[i].len() as u128 + 2) / 3;
            if 4 * q > usize::MAX as u128 {
                return Err(BridgeError::ChunkTooLarge);
            }
            i = i + 1;
        }
        let response = encode_session_response(session_id, chunks);
        if still_alive {
            Ok(Completion::Reply(response))
        } else {
            self.sessions.release(session_id);
            self.retired = true;
            Ok(Completion::Shutdown(response, encode(&Message::ResetEnclave)))
        }
    }

    /// Takes the enclave's answer to closing session `session_id`: the id is
    /// freed only once the close is acknowledged.
    pub fn on_session_closed(&mut self, session_id: u32, buf: &[u8]) -> (r: Result<(), BridgeError>)
        requires
            old(self).wf(),
        ensures
            final(self).wf(),
            final(self).spec_retired() == old(self).spec_retired(),
            match decode_spec(buf@) {
                Some(MessageView::Status(_)) => r is Ok && final(self).spec_sessions().live_set()
                    == old(self).spec_sessions().live_set().remove(session_id),
                d => r matches Err(BridgeError::Proxy(e)) && e@ == unexpected(d) && *final(self)
                    == *old(self),
            },
    {
        match crate::proxy::expect_close_ack(buf) {
            Err(e) => Err(BridgeError::Proxy(e)),
            Ok(()) => {
                self.sessions.release(session_id);
                Ok(())
            },
        }
    }
}

/// The request that closes session `id`.
pub fn close_session_request(id: u32) -> (r: Vec<u8>)
    ensures
        r@ == encode_spec(MessageView::CloseTLSSession(id)),
{
    encode(&Message::CloseTLSSession(id))
}

} // verus!
