use sinaloa_bridge::attestation::{
    http_success, AttestationError, Handshake, HandshakeAction, HandshakeEvent, HandshakePhase,
};
use sinaloa_bridge::bridge::{close_session_request, Bridge, BridgeError, Completion, SessionPlan};
use sinaloa_bridge::message::{encode, Message, Status};
use sinaloa_bridge::registry::{AuthError, Principal, PrincipalRegistry, RegistryError, Role};
use sinaloa_bridge::sessions::{SessionError, SessionTable};
use sinaloa_bridge::text::{
    decode_opaque_request, encode_opaque_response,
    encode_session_response, format_session_response, parse_decimal_u32, parse_session_request,
    split_session_request, RequestError,
};
use sinaloa_bridge::exchange::ExchangeStep;

fn ready_handshake() -> Handshake {
    let (mut h, req) = Handshake::start("nitro".to_string());
    assert_eq!(req, encode(&Message::FetchFirmwareVersion));
    let fw = encode(&Message::FirmwareVersion("0.3".to_string()));
    match h.on_event(HandshakeEvent::EnclaveResponse(fw)) {
        HandshakeAction::PostStart(p, v) => {
            assert_eq!(p, "nitro");
            assert_eq!(v, "0.3");
        }
        other => panic!("unexpected {:?}", other),
    }
    match h.on_event(HandshakeEvent::StartResponse(true, Some((vec![1, 2, 3], 42)))) {
        HandshakeAction::SendToEnclave(b) => assert_eq!(b, encode(&Message::NativeAttestation(vec![1, 2, 3], 42))),
        other => panic!("unexpected {:?}", other),
    }
    let token = encode(&Message::TokenData(vec![9, 9], vec![8]));
    match h.on_event(HandshakeEvent::EnclaveResponse(token)) {
        HandshakeAction::PostToken(t, d) => {
            assert_eq!(t, vec![9, 9]);
            assert_eq!(d, 42);
        }
        other => panic!("unexpected {:?}", other),
    }
    assert!(matches!(h.on_event(HandshakeEvent::TokenResponse(true)), HandshakeAction::Ready));
    assert!(h.is_ready());
    h
}

#[test]
fn handshake_reaches_ready_after_every_step() {
    let h = ready_handshake();
    assert_eq!(h.phase(), HandshakePhase::Ready);
}

#[test]
fn start_with_http_500_fails_and_a_new_attempt_starts_over() {
    let (mut h, _) = Handshake::start("nitro".to_string());
    let fw = encode(&Message::FirmwareVersion("0.3".to_string()));
    assert!(matches!(h.on_event(HandshakeEvent::EnclaveResponse(fw)), HandshakeAction::PostStart(_, _)));
    assert!(!http_success(b"HTTP/1.1 500 Internal Server Error\r\n"));
    match h.on_event(HandshakeEvent::StartResponse(false, None)) {
        HandshakeAction::Failed(AttestationError::NonSuccessHttp) => {}
        other => panic!("unexpected {:?}", other),
    }
    assert_eq!(h.phase(), HandshakePhase::Failed);
    let (retry, req) = Handshake::start("nitro".to_string());
    assert_eq!(retry.phase(), HandshakePhase::AwaitFirmware);
    assert_eq!(req, encode(&Message::FetchFirmwareVersion));
}

#[test]
fn handshake_refuses_wrong_replies() {
    let (mut h, _) = Handshake::start("nitro".to_string());
    match h.on_event(HandshakeEvent::EnclaveResponse(encode(&Message::Status(Status::Success)))) {
        HandshakeAction::Failed(AttestationError::Proxy(_)) => {}
        other => panic!("unexpected {:?}", other),
    }
    let (mut h, _) = Handshake::start("nitro".to_string());
    match h.on_event(HandshakeEvent::TokenResponse(true)) {
        HandshakeAction::Failed(AttestationError::UnexpectedEvent) => {}
        other => panic!("unexpected {:?}", other),
    }
}

#[test]
fn http_status_line_is_recognised() {
    assert!(http_success(b"HTTP/1.1 200 OK\r\nContent-Length: 0\r\n\r\n"));
    assert!(http_success(b"HTTP/1.1 100 Continue\r\n\r\nHTTP/1.1 200 OK\r\n"));
    assert!(http_success(b"HTTP/1.1 200 OK"));
    assert!(http_success(b"HTTP/2 200\r\ncontent-type: text/plain\r\n\r\n"));
    assert!(http_success(b"HTTP/1.1 200 Fine\r\n"));
    assert!(!http_success(b"HTTP/1.1 100 Continue\r\n\r\nHTTP/1.1 500 Internal Server Error\r\n"));
    assert!(!http_success(b"HTTP/1.1 2000 OK\r\n"));
    assert!(!http_success(b"X-Note: HTTP/1.1 200 OK\r\n"));
    assert!(!http_success(b""));
}

#[test]
fn bridge_refuses_requests_before_attestation() {
    let (h, _) = Handshake::start("nitro".to_string());
    assert!(matches!(Bridge::new(&h), Err(BridgeError::NotAttested)));
}

#[test]
fn new_session_request_allocates_and_replies_with_the_id() {
    let mut bridge = Bridge::new(&ready_handshake()).unwrap();
    let (plan, req) = bridge.begin_request("0 FgMBAAE=").unwrap();
    assert_eq!(req.unwrap(), encode(&Message::NewTLSSession));
    let payload = match plan {
        SessionPlan::NewSession(p) => p,
        other => panic!("unexpected {:?}", other),
    };
    assert_eq!(payload, vec![0x16, 3, 1, 0, 1]);
    let id = bridge.on_new_session(&encode(&Message::TLSSession(5))).unwrap();
    assert_eq!(id, 5);
    assert!(bridge.sessions().is_live(5));
    let (mut ex, first) = sinaloa_bridge::exchange::TlsExchange::start(id, payload);
    assert_eq!(first, encode(&Message::SendTLSData(5, vec![0x16, 3, 1, 0, 1])));
    assert!(matches!(ex.on_response(&encode(&Message::Status(Status::Success))), ExchangeStep::Send(_)));
    assert!(matches!(ex.on_response(&encode(&Message::TLSDataNeeded(true))), ExchangeStep::Send(_)));
    assert!(matches!(ex.on_response(&encode(&Message::TLSData(vec![0x16, 3, 3], true))), ExchangeStep::Send(_)));
    assert!(matches!(ex.on_response(&encode(&Message::TLSDataNeeded(false))), ExchangeStep::Finished));
    let (alive, chunks) = ex.into_output();
    match bridge.finish_exchange(id, alive, &chunks).unwrap() {
        Completion::Reply(s) => assert_eq!(s, "5 FgMD"),
        other => panic!("unexpected {:?}", other),
    }
    assert!(!bridge.is_retired());
}

#[test]
fn existing_session_tag_is_used_directly() {
    let bridge = Bridge::new(&ready_handshake()).unwrap();
    match bridge.begin_request("17 AQID").unwrap() {
        (SessionPlan::Existing(17, p), None) => assert_eq!(p, vec![1, 2, 3]),
        other => panic!("unexpected {:?}", other),
    }
}

#[test]
fn session_not_alive_retires_the_bridge_after_the_final_response() {
    let mut bridge = Bridge::new(&ready_handshake()).unwrap();
    bridge.on_new_session(&encode(&Message::TLSSession(2))).unwrap();
    match bridge.finish_exchange(2, false, &vec![vec![1, 2, 3]]).unwrap() {
        Completion::Shutdown(s, reset) => {
            assert_eq!(s, "2 AQID");
            assert_eq!(reset, encode(&Message::ResetEnclave));
        }
        other => panic!("unexpected {:?}", other),
    }
    assert!(bridge.is_retired());
    assert!(!bridge.sessions().is_live(2));
    assert!(matches!(bridge.begin_request("2 AQID"), Err(BridgeError::Retired)));
}

#[test]
fn duplicate_session_id_from_the_enclave_is_refused() {
    let mut bridge = Bridge::new(&ready_handshake()).unwrap();
    bridge.on_new_session(&encode(&Message::TLSSession(4))).unwrap();
    match bridge.on_new_session(&encode(&Message::TLSSession(4))) {
        Err(BridgeError::Session(SessionError::SessionIdInUse(4))) => {}
        other => panic!("unexpected {:?}", other),
    }
    match bridge.on_new_session(&encode(&Message::TLSSession(0))) {
        Err(BridgeError::Session(SessionError::ReservedSessionId)) => {}
        other => panic!("unexpected {:?}", other),
    }
    assert_eq!(close_session_request(4), encode(&Message::CloseTLSSession(4)));
    assert!(bridge.on_session_closed(4, &encode(&Message::GetEnclaveCert)).is_err());
    assert!(bridge.sessions().is_live(4));
    bridge.on_session_closed(4, &encode(&Message::Status(Status::Success))).unwrap();
    assert!(!bridge.sessions().is_live(4));
    assert_eq!(bridge.on_new_session(&encode(&Message::TLSSession(4))).unwrap(), 4);
}

#[test]
fn session_table_keeps_ids_distinct() {
    let mut t = SessionTable::new();
    assert_eq!(t.register(0), Err(SessionError::ReservedSessionId));
    assert_eq!(t.register(3), Ok(()));
    assert_eq!(t.register(3), Err(SessionError::SessionIdInUse(3)));
    assert_eq!(t.register(8), Ok(()));
    assert_eq!(t.len(), 2);
    t.release(3);
    assert!(!t.is_live(3));
    assert!(t.is_live(8));
    assert_eq!(t.register(3), Ok(()));
}

#[test]
fn request_text_is_split_and_decoded() {
    assert_eq!(parse_session_request("0 AQID"), Ok((0, vec![1, 2, 3])));
    assert_eq!(parse_session_request("  5\tAQID extra"), Ok((5, vec![1, 2, 3])));
    assert_eq!(parse_session_request("+7 AQID"), Ok((7, vec![1, 2, 3])));
    assert_eq!(parse_session_request("5"), Err(RequestError::InvalidRequestFormat));
    assert_eq!(parse_session_request(""), Err(RequestError::InvalidRequestFormat));
    assert_eq!(parse_session_request("x AQID"), Err(RequestError::InvalidSessionTag));
    assert_eq!(parse_session_request("-1 AQID"), Err(RequestError::InvalidSessionTag));
    assert_eq!(parse_session_request("4294967296 AQID"), Err(RequestError::InvalidSessionTag));
    assert_eq!(parse_session_request("1 !!!"), Err(RequestError::Base64Decode));
    assert_eq!(split_session_request("9 abc"), Ok((9, b"abc".to_vec())));
    assert_eq!(parse_session_request("5\u{3000}AQID"), Ok((5, vec![1, 2, 3])));
    assert_eq!(parse_session_request("\u{a0}6\u{2028}AQID\u{85}"), Ok((6, vec![1, 2, 3])));
}

#[test]
fn request_fields_split_as_std_splits_whitespace() {
    let inputs = [
        "1 AQID", "\t2\nAQID", "3\u{1680}AQID", "4\u{200a}AQID x", "5\u{202f}\u{205f}AQID", "6é AQID",
        "7\u{200b}AQID", "8",
    ];
    for input in inputs {
        let fields: Vec<&str> = input.split_whitespace().collect();
        let expected = if fields.len() < 2 {
            Err(RequestError::InvalidRequestFormat)
        } else {
            match fields[0].parse::<u32>() {
                Ok(n) => Ok((n, fields[1].as_bytes().to_vec())),
                Err(_) => Err(RequestError::InvalidSessionTag),
            }
        };
        assert_eq!(split_session_request(input), expected, "{:?}", input);
    }
}

#[test]
fn decimal_tags_match_std_parsing() {
    for t in ["0", "4294967295", "4294967296", "+", "", "007", "+12", "1a", "99999999999"] {
        assert_eq!(parse_decimal_u32(t.as_bytes()), t.parse::<u32>().ok(), "{}", t);
    }
}

#[test]
fn response_text_lists_chunks_in_order() {
    assert_eq!(encode_session_response(3, &vec![vec![1, 2, 3], vec![255]]), "3 AQID /w==");
    assert_eq!(encode_session_response(41, &vec![]), "41");
    assert_eq!(encode_session_response(u32::MAX, &vec![vec![]]), "4294967295 ");
    assert_eq!(format_session_response(10, &vec!["a".to_string(), "b".to_string()]), "10 a b");
}

fn principal(id: u32, cert: &[u8], roles: Vec<Role>) -> Principal {
    Principal::new(id, cert.to_vec(), roles)
}

#[test]
fn duplicate_certificates_are_a_load_error() {
    let r = PrincipalRegistry::load(vec![
        principal(1, b"a", vec![Role::DataProvider]),
        principal(2, b"b", vec![Role::ResultReader]),
        principal(3, b"a", vec![Role::PiProvider]),
    ]);
    assert!(matches!(r, Err(RegistryError::DuplicateCertificate(0, 2))));
}

fn registry() -> PrincipalRegistry {
    PrincipalRegistry::load(vec![
        principal(1, b"cert-one", vec![Role::ResultReader]),
        principal(2, b"cert-two", vec![]),
        principal(3, b"cert-three", vec![Role::DataProvider, Role::PiProvider]),
    ])
    .unwrap()
}

#[test]
fn unknown_certificate_is_refused() {
    let reg = registry();
    assert_eq!(reg.lookup(b"cert-four"), Err(AuthError::PeerCertificateUnknown));
    assert_eq!(reg.lookup(b""), Err(AuthError::PeerCertificateUnknown));
    assert_eq!(
        reg.authorize_plaintext(Some(vec![b"cert-on".to_vec()]), vec![1]),
        Err(AuthError::PeerCertificateUnknown)
    );
}

#[test]
fn principal_without_roles_is_refused() {
    let reg = registry();
    assert_eq!(reg.lookup(b"cert-two"), Err(AuthError::EmptyRoleError(2)));
    assert_eq!(
        reg.authorize_plaintext(Some(vec![b"cert-two".to_vec()]), vec![1]),
        Err(AuthError::EmptyRoleError(2))
    );
}

#[test]
fn plaintext_is_tagged_with_the_reader_principal() {
    let reg = registry();
    assert_eq!(
        reg.authorize_plaintext(Some(vec![b"cert-one".to_vec()]), b"payload".to_vec()),
        Ok(Some((1, vec![Role::ResultReader], b"payload".to_vec())))
    );
    assert_eq!(reg.lookup(b"cert-three"), Ok((3, vec![Role::DataProvider, Role::PiProvider])));
}

#[test]
fn plaintext_needs_exactly_one_peer_certificate() {
    let reg = registry();
    assert_eq!(reg.authorize_plaintext(None, vec![1]), Err(AuthError::PeerCertificateError));
    assert_eq!(
        reg.authorize_plaintext(Some(vec![b"cert-one".to_vec(), b"cert-three".to_vec()]), vec![1]),
        Err(AuthError::InvalidLengthError(2))
    );
    assert_eq!(reg.authorize_plaintext(None, vec![]), Ok(None));
}

#[test]
fn opaque_blobs_are_base64_both_ways() {
    assert_eq!(decode_opaque_request("AQID"), Ok(vec![1, 2, 3]));
    assert_eq!(decode_opaque_request("A"), Err(RequestError::Base64Decode));
    assert_eq!(encode_opaque_response(&Some(vec![1, 2, 3])), "AQID");
    assert_eq!(encode_opaque_response(&None), "");
}
