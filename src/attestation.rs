//! The native-attestation handshake.
//!
//! The host asks the root enclave for its firmware version, announces that
//! version to the attestation service and receives a challenge, has the
//! enclave answer the challenge with a token, and posts the token to the
//! service. Only then is the enclave trusted. The handshake is linear: any
//! failure ends it, and a new attempt starts again from the beginning with a
//! new challenge.
//!
//! The handshake is a state machine: the caller performs each action it hands
//! out (a message to the enclave, a request to the service) and feeds back
//! what came of it.

use crate::message::{decode_spec, encode, encode_spec, Message, MessageView};
use crate::proxy::{expect_firmware_version, expect_token_data, unexpected, ProxyError};
use vstd::prelude::*;

verus! {

/// Where the handshake stands; each waiting phase names what it waits for.
#[derive(Clone, Copy, Debug, PartialEq, Eq, Structural)]
pub enum HandshakePhase {
    /// The firmware version was requested from the enclave.
    AwaitFirmware,
    /// The start message was posted; the service's challenge is awaited.
    AwaitChallenge,
    /// The challenge was handed to the enclave; its token is awaited.
    AwaitToken,
    /// The token was posted; the service's verdict is awaited.
    AwaitTokenAck,
    /// The service accepted the token: the enclave is trusted.
    Ready,
    /// The attempt failed.
    Failed,
}

/// An outside step of a handshake, with what was handed out for it.
pub enum HandshakeStep {
    /// The firmware version was requested from the enclave.
    FetchFirmware,
    /// The start message was posted: the protocol name and firmware version.
    RequestChallenge(Seq<char>, Seq<char>),
    /// The challenge and device id were handed to the enclave.
    RequestToken(Seq<u8>, i32),
    /// The token was posted with this device id.
    PostToken(Seq<u8>, i32),
}

/// Why a handshake attempt failed.
#[derive(Clone, Debug)]
pub enum AttestationError {
    /// The enclave's response was refused.
    Proxy(ProxyError),
    /// The attestation service answered with a status other than success.
    NonSuccessHttp,
    /// The attestation service's answer lacked the expected content.
    InvalidProtocolMessage,
    /// An outcome arrived that the current phase does not wait for.
    UnexpectedEvent,
}

/// What the caller does next.
#[derive(Debug)]
pub enum HandshakeAction {
    /// Send these bytes to the enclave and feed back its response.
    SendToEnclave(Vec<u8>),
    /// Post the start message (protocol name, firmware version) to the
    /// attestation service and feed back its answer.
    PostStart(String, String),
    /// Post the token with the device id to the attestation service and feed
    /// back its verdict.
    PostToken(Vec<u8>, i32),
    /// The enclave is trusted.
    Ready,
    /// The attempt failed.
    Failed(AttestationError),
}

/// What came of the last action.
#[derive(Debug)]
pub enum HandshakeEvent {
    /// The enclave's response buffer.
    EnclaveResponse(Vec<u8>),
    /// The service's answer to the start message: whether the request
    /// succeeded, and the challenge and device id if its body held them.
    StartResponse(bool, Option<(Vec<u8>, i32)>),
    /// Whether the service accepted the token.
    TokenResponse(bool),
}

/// One attempt at the handshake.
pub struct Handshake {
    phase: HandshakePhase,
    protocol: String,
    device_id: i32,
    steps: Ghost<Seq<HandshakeStep>>,
}

/// How many outside steps have been taken once the handshake is in `phase`.
pub open spec fn steps_taken(phase: HandshakePhase) -> nat {
    match phase {
        HandshakePhase::AwaitFirmware => 1,
        HandshakePhase::AwaitChallenge => 2,
        HandshakePhase::AwaitToken => 3,
        _ => 4,
    }
}

/// Whether `steps` are the first outside steps of a handshake, in order:
/// the firmware fetch, then the start message for `protocol`, then the
/// challenge for the enclave, then the token posted with the same device id.
pub open spec fn steps_in_order(steps: Seq<HandshakeStep>, protocol: Seq<char>) -> bool {
    &&& 1 <= steps.len() <= 4
    &&& steps[0] is FetchFirmware
    &&& steps.len() > 1 ==> (steps[1] matches HandshakeStep::RequestChallenge(p, _) && p == protocol)
    &&& steps.len() > 2 ==> steps[2] is RequestToken
    &&& steps.len() > 3 ==> (steps[3] matches HandshakeStep::PostToken(_, d) && steps[2] matches HandshakeStep::RequestToken(
        _,
        d2,
    ) && d == d2)
}

impl Handshake {
    pub closed spec fn spec_phase(&self) -> HandshakePhase {
        self.phase
    }

    /// The outside steps taken so far, in order.
    pub closed spec fn spec_steps(&self) -> Seq<HandshakeStep> {
        self.steps@
    }

    pub closed spec fn spec_protocol(&self) -> Seq<char> {
        self.protocol@
    }

    /// The device id that came with the challenge.
    pub closed spec fn spec_device_id(&self) -> i32 {
        self.device_id
    }

    pub open spec fn wf(&self) -> bool {
        &&& steps_in_order(self.spec_steps(), self.spec_protocol())
        &&& self.spec_phase() != HandshakePhase::Failed ==> self.spec_steps().len() == steps_taken(
            self.spec_phase(),
        )
        &&& self.spec_steps().len() > 2 ==> (self.spec_steps()[2] matches HandshakeStep::RequestToken(_, d)
            && d == self.spec_device_id())
    }

    pub open spec fn awaiting(&self) -> bool {
        self.spec_phase() != HandshakePhase::Ready && self.spec_phase() != HandshakePhase::Failed
    }

    /// Begins an attempt for `protocol`: the returned bytes ask the enclave
    /// for its firmware version.
    pub fn start(protocol: String) -> (r: (Handshake, Vec<u8>))
        ensures
            r.0.wf(),
            r.0.spec_phase() == HandshakePhase::AwaitFirmware,
            r.0.spec_protocol() == protocol@,
            r.0.spec_steps() == seq![HandshakeStep::FetchFirmware],
            r.1@ == encode_spec(MessageView::FetchFirmwareVersion),
    {
        let ghost first = seq![HandshakeStep::FetchFirmware];
        let h = Handshake { phase: HandshakePhase::AwaitFirmware, protocol, device_id: 0, steps: Ghost(first) };
        (h, encode(&Message::FetchFirmwareVersion))
    }

    pub fn phase(&self) -> (r: HandshakePhase)
        ensures
            r == self.spec_phase(),
    {
        self.phase
    }

    pub fn is_ready(&self) -> (r: bool)
        ensures
            r == (self.spec_phase() == HandshakePhase::Ready),
    {
        self.phase == HandshakePhase::Ready
    }

    fn fail(&mut self, e: AttestationError) -> (r: HandshakeAction)
        requires
            old(self).wf(),
        ensures
            final(self).wf(),
            final(self).spec_phase() == HandshakePhase::Failed,
            final(self).spec_steps() == old(self).spec_steps(),
            final(self).spec_protocol() == old(self).spec_protocol(),
            final(self).spec_device_id() == old(self).spec_device_id(),
            r == HandshakeAction::Failed(e),
    {
        self.phase = HandshakePhase::Failed;
        HandshakeAction::Failed(e)
    }

    /// Feeds back what came of the last action and returns the next one.
    /// Each action that reaches outside is logged as a step, with what it
    /// carries.
    pub fn on_event(&mut self, event: HandshakeEvent) -> (r: HandshakeAction)
        requires
            old(self).wf(),
            old(self).awaiting(),
        ensures
            final(self).wf(),
            final(self).spec_protocol() == old(self).spec_protocol(),
            r is Ready <==> final(self).spec_phase() == HandshakePhase::Ready,
            r is Failed <==> final(self).spec_phase() == HandshakePhase::Failed,
            r is Ready || r is Failed ==> final(self).spec_steps() == old(self).spec_steps(),
            final(self).spec_phase() == HandshakePhase::Ready ==> old(self).spec_phase()
                == HandshakePhase::AwaitTokenAck && event == HandshakeEvent::TokenResponse(true),
            match (old(self).spec_phase(), event) {
                (HandshakePhase::AwaitChallenge, HandshakeEvent::StartResponse(false, _)) => r matches HandshakeAction::Failed(
                    AttestationError::NonSuccessHttp,
                ),
                (HandshakePhase::AwaitChallenge, HandshakeEvent::StartResponse(true, None)) => r matches HandshakeAction::Failed(
                    AttestationError::InvalidProtocolMessage,
                ),
                (HandshakePhase::AwaitChallenge, HandshakeEvent::StartResponse(true, Some((c, d)))) => r matches HandshakeAction::SendToEnclave(b)
                    && b@ == encode_spec(MessageView::NativeAttestation(c@, d))
                    && final(self).spec_phase() == HandshakePhase::AwaitToken
                    && final(self).spec_device_id() == d
                    && final(self).spec_steps() == old(self).spec_steps().push(HandshakeStep::RequestToken(c@, d)),
                (HandshakePhase::AwaitTokenAck, HandshakeEvent::TokenResponse(false)) => r matches HandshakeAction::Failed(
                    AttestationError::NonSuccessHttp,
                ),
                (HandshakePhase::AwaitTokenAck, HandshakeEvent::TokenResponse(true)) => r is Ready,
                (HandshakePhase::AwaitFirmware, HandshakeEvent::EnclaveResponse(b)) => match decode_spec(b@) {
                    Some(MessageView::FirmwareVersion(v)) => r matches HandshakeAction::PostStart(p, fv)
                        && p@ == old(self).spec_protocol() && fv@ == v
                        && final(self).spec_phase() == HandshakePhase::AwaitChallenge
                        && final(self).spec_steps() == old(self).spec_steps().push(
                        HandshakeStep::RequestChallenge(p@, v),
                    ),
                    d => r matches HandshakeAction::Failed(AttestationError::Proxy(e)) && e@ == unexpected(d),
                },
                (HandshakePhase::AwaitToken, HandshakeEvent::EnclaveResponse(b)) => match decode_spec(b@) {
                    Some(MessageView::TokenData(t, _)) => r matches HandshakeAction::PostToken(pt, d)
                        && pt@ == t && d == old(self).spec_device_id()
                        && final(self).spec_phase() == HandshakePhase::AwaitTokenAck
                        && final(self).spec_steps() == old(self).spec_steps().push(HandshakeStep::PostToken(t, d)),
                    d => r matches HandshakeAction::Failed(AttestationError::Proxy(e)) && e@ == unexpected(d),
                },
                _ => r matches HandshakeAction::Failed(AttestationError::UnexpectedEvent),
            },
    {
        match (self.phase, event) {
            (HandshakePhase::AwaitFirmware, HandshakeEvent::EnclaveResponse(b)) => {
                match expect_firmware_version(b.as_slice()) {
                    Ok(version) => {
                        let ghost next = self.steps@.push(HandshakeStep::RequestChallenge(self.protocol@, version@));
                        self.phase = HandshakePhase::AwaitChallenge;
                        self.steps = Ghost(next);
                        HandshakeAction::PostStart(self.protocol.clone(), version)
                    },
                    Err(e) => self.fail(AttestationError::Proxy(e)),
                }
            },
            (HandshakePhase::AwaitChallenge, HandshakeEvent::StartResponse(ok, reply)) => {
                if !ok {
                    return self.fail(AttestationError::NonSuccessHttp);
                }
                match reply {
                    None => self.fail(AttestationError::InvalidProtocolMessage),
                    Some((challenge, device_id)) => {
                        let ghost next = self.steps@.push(HandshakeStep::RequestToken(challenge@, device_id));
                        self.device_id = device_id;
                        self.phase = HandshakePhase::AwaitToken;
                        self.steps = Ghost(next);
                        HandshakeAction::SendToEnclave(encode(&Message::NativeAttestation(challenge, device_id)))
                    },
                }
            },
            (HandshakePhase::AwaitToken, HandshakeEvent::EnclaveResponse(b)) => {
                match expect_token_data(b.as_slice()) {
                    Ok((token, _public_key)) => {
                        let ghost next = self.steps@.push(HandshakeStep::PostToken(token@, self.device_id));
                        self.phase = HandshakePhase::AwaitTokenAck;
                        self.steps = Ghost(next);
                        HandshakeAction::PostToken(token, self.device_id)
                    },
                    Err(e) => self.fail(AttestationError::Proxy(e)),
                }
            },
            (HandshakePhase::AwaitTokenAck, HandshakeEvent::TokenResponse(ok)) => {
                if ok {
                    self.phase = HandshakePhase::Ready;
                    HandshakeAction::Ready
                } else {
                    self.fail(AttestationError::NonSuccessHttp)
                }
            },
            _ => self.fail(AttestationError::UnexpectedEvent),
        }
    }
}

/// A handshake that reached `Ready` took exactly four outside steps, in
/// order: it fetched the firmware version, posted the start message for its
/// protocol, handed the challenge to the enclave, and posted the token with
/// the device id that came with the challenge.
pub proof fn lemma_ready_after_full_handshake(h: Handshake)
    requires
        h.wf(),
        h.spec_phase() == HandshakePhase::Ready,
    ensures
        h.spec_steps().len() == 4,
        h.spec_steps()[0] is FetchFirmware,
        h.spec_steps()[1] matches HandshakeStep::RequestChallenge(p, _) && p == h.spec_protocol(),
        h.spec_steps()[2] matches HandshakeStep::RequestToken(_, d) && d == h.spec_device_id(),
        h.spec_steps()[3] matches HandshakeStep::PostToken(_, d) && d == h.spec_device_id(),
{
}

/// `HTTP/`, which opens a status line.
pub open spec fn http_prefix() -> Seq<u8> {
    seq![72u8, 84, 84, 80, 47]
}

/// Whether a status line starts at index `i`: at the start of a line, with
/// `HTTP/`.
pub open spec fn status_line_at(h: Seq<u8>, i: int) -> bool {
    0 <= i && i + 5 <= h.len() && (i == 0 || h[i - 1] == 10) && h.subrange(i, i + 5) == http_prefix()
}

/// The first index at or after `i` that holds a space, a carriage return or
/// a line feed: the end of the protocol version.
pub open spec fn version_end(h: Seq<u8>, i: nat) -> nat
    decreases h.len() - i,
{
    if i >= h.len() {
        h.len()
    } else if h[i as int] == 32 || h[i as int] == 13 || h[i as int] == 10 {
        i
    } else {
        version_end(h, i + 1)
    }
}

/// Whether the status line at `i` carries the code `200`: the version, one
/// space, `200`, then a space, a carriage return, a line feed or the end.
pub open spec fn status_200_at(h: Seq<u8>, i: nat) -> bool {
    let j = version_end(h, i) as int;
    &&& j + 4 <= h.len()
    &&& h[j] == 32 && h[j + 1] == 50 && h[j + 2] == 48 && h[j + 3] == 48
    &&& (j + 4 == h.len() || h[j + 4] == 32 || h[j + 4] == 13 || h[j + 4] == 10)
}

/// Whether response headers report success: their last status line carries
/// the code `200`, whatever the HTTP version and reason phrase.
pub open spec fn http_success_spec(h: Seq<u8>) -> bool {
    exists|i: int|
        #[trigger] status_line_at(h, i) && status_200_at(h, i as nat) && forall|k: int|
            i < k ==> !#[trigger] status_line_at(h, k)
}

fn status_line_at_exec(h: &[u8], i: usize) -> (r: bool)
    requires
        i <= h@.len(),
    ensures
        r == status_line_at(h@, i as int),
{
    if h.len() - i < 5 || (i > 0 && h[i - 1] != 10) {
        return false;
    }
    let r = h[i] == 72 && h[i + 1] == 84 && h[i + 2] == 84 && h[i + 3] == 80 && h[i + 4] == 47;
    assert(r == (h@.subrange(i as int, i + 5) =~= http_prefix()));
    r
}

fn status_200_exec(h: &[u8], i: usize) -> (r: bool)
    requires
        i <= h@.len(),
    ensures
        r == status_200_at(h@, i as nat),
{
    let n = h.len();
    let mut j = i;
    while j < n && h[j] != 32 && h[j] != 13 && h[j] != 10
        invariant
            i <= j <= n,
            n == h@.len(),
            version_end(h@, j as nat) == version_end(h@, i as nat),
        decreases n - j,
    {
        j = j + 1;
    }
    if n - j < 4 {
        return false;
    }
    h[j] == 32 && h[j + 1] == 50 && h[j + 2] == 48 && h[j + 3] == 48 && (n - j == 4 || h[j + 4] == 32 || h[j
        + 4] == 13 || h[j + 4] == 10)
}

/// Whether the attestation service's response headers report success.
pub fn http_success(header: &[u8]) -> (r: bool)
    ensures
        r == http_success_spec(header@),
{
    let n = header.len();
    let mut last: Option<usize> = None;
    let mut i: usize = 0;
    while i < n
        invariant
            i <= n,
            n == header@.len(),
            match last {
                None => forall|k: int| 0 <= k < i ==> !#[trigger] status_line_at(header@, k),
                Some(l) => l < i && status_line_at(header@, l as int) && forall|k: int|
                    l < k < i ==> !#[trigger] status_line_at(header@, k),
            },
        decreases n - i,
    {
        if status_line_at_exec(header, i) {
            last = Some(i);
        }
        i = i + 1;
    }
    assert forall|k: int| k >= n implies !#[trigger] status_line_at(header@, k) by {}
    match last {
        None => {
            assert forall|k: int| !#[trigger] status_line_at(header@, k) by {}
            false
        },
        Some(l) => {
            let r = status_200_exec(header, l);
            assert forall|k: int| l < k implies !#[trigger] status_line_at(header@, k) by {}
            if !r {
                assert forall|k: int|
                    #[trigger] status_line_at(header@, k) && status_200_at(header@, k as nat) implies exists|m: int|
                    k < m && status_line_at(header@, m) by {
                    if k < l {
                        assert(status_line_at(header@, l as int));
                    }
                }
            }
            r
        },
    }
}

} // verus!
