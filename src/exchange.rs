//! One exchange of TLS bytes with a session inside the enclave.
//!
//! The host sends the client's bytes, then drains what the enclave wants to
//! send back: it asks whether data is pending and, while it is, fetches one
//! chunk at a time. The exchange is a state machine: the caller performs
//! each request it hands out and feeds back the response buffer.

use crate::message::{decode, decode_spec, encode, encode_spec, Message, MessageView, Status};
use crate::proxy::{unexpected, ProxyError, ProxyErrorView};
use vstd::prelude::*;

verus! {

/// Where an exchange stands.
#[derive(Clone, Copy, Debug, PartialEq, Eq, Structural)]
pub enum ExchangePhase {
    /// The client's bytes were sent; the acknowledgement is awaited.
    AwaitSendAck,
    /// The enclave was asked whether data is pending.
    AwaitNeeded,
    /// The enclave was asked for the next chunk.
    AwaitData,
    /// The enclave reported that no data is pending.
    Done,
    /// A response was refused.
    Failed,
}

/// What the caller does next.
#[derive(Debug)]
pub enum ExchangeStep {
    /// Send these bytes to the enclave and feed back its response.
    Send(Vec<u8>),
    /// The exchange is complete: read the chunks and the liveness flag.
    Finished,
    /// The exchange failed.
    Failed(ProxyError),
}

/// The state of one exchange with session `session_id`.
pub struct TlsExchange {
    session_id: u32,
    phase: ExchangePhase,
    alive: bool,
    chunks: Vec<Vec<u8>>,
}

impl TlsExchange {
    pub closed spec fn spec_session_id(&self) -> u32 {
        self.session_id
    }

    pub closed spec fn spec_phase(&self) -> ExchangePhase {
        self.phase
    }

    pub closed spec fn spec_alive(&self) -> bool {
        self.alive
    }

    /// The chunks received so far, in the order the enclave emitted them.
    pub closed spec fn spec_chunks(&self) -> Seq<Seq<u8>> {
        self.chunks@.map_values(|c: Vec<u8>| c@)
    }

    /// Whether the exchange waits for a response.
    pub open spec fn awaiting(&self) -> bool {
        self.spec_phase() == ExchangePhase::AwaitSendAck || self.spec_phase()
            == ExchangePhase::AwaitNeeded || self.spec_phase() == ExchangePhase::AwaitData
    }

    /// Starts an exchange: the returned bytes carry `input` to the session.
    pub fn start(session_id: u32, input: Vec<u8>) -> (r: (TlsExchange, Vec<u8>))
        ensures
            r.0.spec_session_id() == session_id,
            r.0.spec_phase() == ExchangePhase::AwaitSendAck,
            r.0.spec_alive(),
            r.0.spec_chunks() == Seq::<Seq<u8>>::empty(),
            r.1@ == encode_spec(MessageView::SendTLSData(session_id, input@)),
    {
        let request = encode(&Message::SendTLSData(session_id, input));
        let ex = TlsExchange { session_id, phase: ExchangePhase::AwaitSendAck, alive: true, chunks: Vec::new() };
        assert(ex.spec_chunks() =~= Seq::<Seq<u8>>::empty());
        (ex, request)
    }

    fn fail(&mut self, e: ProxyError) -> (r: ExchangeStep)
        ensures
            final(self).spec_phase() == ExchangePhase::Failed,
            final(self).spec_session_id() == old(self).spec_session_id(),
            final(self).spec_alive() == old(self).spec_alive(),
            final(self).spec_chunks() == old(self).spec_chunks(),
            r matches ExchangeStep::Failed(f) && f@ == e@,
    {
        self.phase = ExchangePhase::Failed;
        ExchangeStep::Failed(e)
    }

    /// Feeds back the enclave's response to the last request.
    ///
    /// The exchange finishes only when the enclave reports that no data is
    /// pending; every chunk it hands out is appended in order.
    pub fn on_response(&mut self, buf: &[u8]) -> (r: ExchangeStep)
        requires
            old(self).awaiting(),
        ensures
            final(self).spec_session_id() == old(self).spec_session_id(),
            ({
                let id = old(self).spec_session_id();
                let d = decode_spec(buf@);
                match (old(self).spec_phase(), d) {
                    (ExchangePhase::AwaitSendAck, Some(MessageView::Status(Status::Success)))
                    | (ExchangePhase::AwaitData, Some(MessageView::TLSData(_, _))) => r matches ExchangeStep::Send(b)
                        && b@ == encode_spec(MessageView::GetTLSDataNeeded(id))
                        && final(self).spec_phase() == ExchangePhase::AwaitNeeded,
                    (ExchangePhase::AwaitNeeded, Some(MessageView::TLSDataNeeded(true))) => r matches ExchangeStep::Send(b)
                        && b@ == encode_spec(MessageView::GetTLSData(id))
                        && final(self).spec_phase() == ExchangePhase::AwaitData,
                    (ExchangePhase::AwaitNeeded, Some(MessageView::TLSDataNeeded(false))) => r is Finished
                        && final(self).spec_phase() == ExchangePhase::Done,
                    (ExchangePhase::AwaitSendAck, Some(MessageView::Status(s))) => r matches ExchangeStep::Failed(e)
                        && e@ == ProxyErrorView::SessionStatusError(id, s)
                        && final(self).spec_phase() == ExchangePhase::Failed,
                    _ => r matches ExchangeStep::Failed(e) && e@ == unexpected(d)
                        && final(self).spec_phase() == ExchangePhase::Failed,
                }
            }),
            match (old(self).spec_phase(), decode_spec(buf@)) {
                (ExchangePhase::AwaitData, Some(MessageView::TLSData(data, alive))) => final(self).spec_chunks()
                    == old(self).spec_chunks().push(data) && final(self).spec_alive() == alive,
                _ => final(self).spec_chunks() == old(self).spec_chunks()
                    && final(self).spec_alive() == old(self).spec_alive(),
            },
    {
        let id = self.session_id;
        let d = decode(buf);
        match self.phase {
            ExchangePhase::AwaitSendAck => match d {
                Some(Message::Status(Status::Success)) => {
                    self.phase = ExchangePhase::AwaitNeeded;
                    ExchangeStep::Send(encode(&Message::GetTLSDataNeeded(id)))
                },
                Some(Message::Status(s)) => self.fail(ProxyError::SessionStatusError(id, s)),
                Some(m) => self.fail(ProxyError::InvalidMessage(m)),
                None => self.fail(ProxyError::DecodeError),
            },
            ExchangePhase::AwaitNeeded => match d {
                Some(Message::TLSDataNeeded(true)) => {
                    self.phase = ExchangePhase::AwaitData;
                    ExchangeStep::Send(encode(&Message::GetTLSData(id)))
                },
                Some(Message::TLSDataNeeded(false)) => {
                    self.phase = ExchangePhase::Done;
                    ExchangeStep::Finished
                },
                Some(m) => self.fail(ProxyError::InvalidMessage(m)),
                None => self.fail(ProxyError::DecodeError),
            },
            _ => match d {
                Some(Message::TLSData(data, alive)) => {
                    let ghost before = self.spec_chunks();
                    let ghost dv = data@;
                    self.chunks.push(data);
                    assert(self.spec_chunks() =~= before.push(dv));
                    self.alive = alive;
                    self.phase = ExchangePhase::AwaitNeeded;
                    ExchangeStep::Send(encode(&Message::GetTLSDataNeeded(id)))
                },
                Some(m) => self.fail(ProxyError::InvalidMessage(m)),
                None => self.fail(ProxyError::DecodeError),
            },
        }
    }

    pub fn session_id(&self) -> (r: u32)
        ensures
            r == self.spec_session_id(),
    {
        self.session_id
    }

    /// The liveness flag of the last chunk, `true` if none was received.
    pub fn still_alive(&self) -> (r: bool)
        ensures
            r == self.spec_alive(),
    {
        self.alive
    }

    /// Ends the exchange, handing out the liveness flag and the chunks.
    pub fn into_output(self) -> (r: (bool, Vec<Vec<u8>>))
        ensures
            r.0 == self.spec_alive(),
            r.1@.map_values(|c: Vec<u8>| c@) == self.spec_chunks(),
    {
        (self.alive, self.chunks)
    }
}

} // verus!
