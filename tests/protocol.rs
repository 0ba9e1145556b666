use sinaloa_bridge::message::{decode, encode, Message, Status};
use sinaloa_bridge::proxy::{
    expect_close_ack, expect_enclave_cert, expect_success, expect_tls_data, expect_tls_session, ProxyError,
};
use sinaloa_bridge::exchange::{ExchangePhase, ExchangeStep, TlsExchange};
use sinaloa_bridge::enclave::SinaloaNitro;

fn round_trip(m: Message) {
    let bytes = encode(&m);
    let back = decode(&bytes).expect("decodes");
    assert_eq!(encode(&back), bytes);
}

#[test]
fn every_message_round_trips() {
    round_trip(Message::Initialize("{\"policy\": \"é\"}".to_string()));
    round_trip(Message::GetEnclaveCert);
    round_trip(Message::EnclaveCert(vec![1, 2, 3]));
    round_trip(Message::GetEnclaveName);
    round_trip(Message::EnclaveName("mexico city".to_string()));
    round_trip(Message::GetPSAAttestationToken(vec![9; 32]));
    round_trip(Message::PSAAttestationToken(vec![1], vec![2, 3], -7));
    round_trip(Message::NewTLSSession);
    round_trip(Message::TLSSession(u32::MAX));
    round_trip(Message::CloseTLSSession(4));
    round_trip(Message::SendTLSData(4, vec![]));
    round_trip(Message::Status(Status::Unimplemented));
    round_trip(Message::GetTLSData(1));
    round_trip(Message::TLSData(vec![5, 6], false));
    round_trip(Message::GetTLSDataNeeded(2));
    round_trip(Message::TLSDataNeeded(true));
    round_trip(Message::ResetEnclave);
    round_trip(Message::NativeAttestation(vec![0; 16], i32::MIN));
    round_trip(Message::FetchFirmwareVersion);
    round_trip(Message::FirmwareVersion("1.2.3".to_string()));
    round_trip(Message::TokenData(vec![7], vec![8]));
}

#[test]
fn decoded_fields_match() {
    let bytes = encode(&Message::PSAAttestationToken(vec![1, 2], vec![3], -2));
    match decode(&bytes) {
        Some(Message::PSAAttestationToken(t, k, d)) => {
            assert_eq!(t, vec![1, 2]);
            assert_eq!(k, vec![3]);
            assert_eq!(d, -2);
        }
        other => panic!("unexpected {:?}", other),
    }
}

#[test]
fn wire_layout_is_little_endian_with_length_prefixes() {
    assert_eq!(encode(&Message::GetEnclaveName), vec![3, 0, 0, 0]);
    assert_eq!(encode(&Message::TLSSession(0x0102_0304)), vec![8, 0, 0, 0, 4, 3, 2, 1]);
    assert_eq!(
        encode(&Message::SendTLSData(7, vec![0xaa, 0xbb])),
        vec![10, 0, 0, 0, 7, 0, 0, 0, 2, 0, 0, 0, 0, 0, 0, 0, 0xaa, 0xbb]
    );
    assert_eq!(encode(&Message::TLSDataNeeded(true)), vec![15, 0, 0, 0, 1]);
    assert_eq!(encode(&Message::NativeAttestation(vec![], -1)), vec![
        17, 0, 0, 0, 0, 0, 0, 0, 0, 0, 0, 0, 0xff, 0xff, 0xff, 0xff
    ]);
    assert_eq!(encode(&Message::Status(Status::Fail)), vec![11, 0, 0, 0, 1, 0, 0, 0]);
}

#[test]
fn wire_layout_matches_bincode_tuples() {
    let expected = bincode::serialize(&(10u32, 7u32, vec![1u8, 2, 3])).unwrap();
    assert_eq!(encode(&Message::SendTLSData(7, vec![1, 2, 3])), expected);
    let expected = bincode::serialize(&(13u32, vec![9u8], true)).unwrap();
    assert_eq!(encode(&Message::TLSData(vec![9], true)), expected);
    let expected = bincode::serialize(&(6u32, vec![1u8], vec![2u8, 3], -5i32)).unwrap();
    assert_eq!(encode(&Message::PSAAttestationToken(vec![1], vec![2, 3], -5)), expected);
    let expected = bincode::serialize(&(0u32, String::from("{}"))).unwrap();
    assert_eq!(encode(&Message::Initialize("{}".to_string())), expected);
}

#[test]
fn malformed_buffers_do_not_decode() {
    let mut bytes = encode(&Message::TLSSession(3));
    bytes.push(0);
    assert!(decode(&bytes).is_none());
    assert!(decode(&[99, 0, 0, 0]).is_none());
    assert!(decode(&[15, 0, 0, 0, 2]).is_none());
    assert!(decode(&[8, 0, 0]).is_none());
    assert!(decode(&[]).is_none());
    assert!(decode(&[2, 0, 0, 0, 5, 0, 0, 0, 0, 0, 0, 0, 1]).is_none());
    assert!(decode(&[4, 0, 0, 0, 1, 0, 0, 0, 0, 0, 0, 0, 0xff]).is_none());
    assert!(decode(&[11, 0, 0, 0, 3, 0, 0, 0]).is_none());
}

#[test]
fn responses_with_the_expected_tag_are_accepted() {
    assert!(expect_success(&encode(&Message::Status(Status::Success))).is_ok());
    assert_eq!(expect_enclave_cert(&encode(&Message::EnclaveCert(vec![4, 2]))).unwrap(), vec![4, 2]);
    assert_eq!(expect_tls_session(&encode(&Message::TLSSession(12))).unwrap(), 12);
    assert!(expect_close_ack(&encode(&Message::Status(Status::Fail))).is_ok());
    assert_eq!(expect_tls_data(&encode(&Message::TLSData(vec![1], false))).unwrap(), (vec![1], false));
}

#[test]
fn responses_with_another_tag_are_refused() {
    match expect_success(&encode(&Message::Status(Status::Fail))) {
        Err(ProxyError::StatusError(Status::Fail)) => {}
        other => panic!("unexpected {:?}", other),
    }
    match expect_tls_session(&encode(&Message::EnclaveName("x".to_string()))) {
        Err(ProxyError::InvalidMessage(Message::EnclaveName(n))) => assert_eq!(n, "x"),
        other => panic!("unexpected {:?}", other),
    }
    match expect_enclave_cert(&[1, 2]) {
        Err(ProxyError::DecodeError) => {}
        other => panic!("unexpected {:?}", other),
    }
}

fn send(step: ExchangeStep) -> Vec<u8> {
    match step {
        ExchangeStep::Send(b) => b,
        other => panic!("expected a request, got {:?}", other),
    }
}

#[test]
fn drain_collects_chunks_in_order_until_no_data_is_needed() {
    let (mut ex, first) = TlsExchange::start(9, vec![1, 2]);
    assert_eq!(first, encode(&Message::SendTLSData(9, vec![1, 2])));
    let r = send(ex.on_response(&encode(&Message::Status(Status::Success))));
    assert_eq!(r, encode(&Message::GetTLSDataNeeded(9)));
    let r = send(ex.on_response(&encode(&Message::TLSDataNeeded(true))));
    assert_eq!(r, encode(&Message::GetTLSData(9)));
    let r = send(ex.on_response(&encode(&Message::TLSData(vec![10], true))));
    assert_eq!(r, encode(&Message::GetTLSDataNeeded(9)));
    send(ex.on_response(&encode(&Message::TLSDataNeeded(true))));
    send(ex.on_response(&encode(&Message::TLSData(vec![20, 21], false))));
    assert!(matches!(ex.on_response(&encode(&Message::TLSDataNeeded(false))), ExchangeStep::Finished));
    let (alive, chunks) = ex.into_output();
    assert!(!alive);
    assert_eq!(chunks, vec![vec![10], vec![20, 21]]);
}

#[test]
fn drain_without_pending_data_returns_no_chunk() {
    let (mut ex, _) = TlsExchange::start(1, vec![]);
    send(ex.on_response(&encode(&Message::Status(Status::Success))));
    assert!(matches!(ex.on_response(&encode(&Message::TLSDataNeeded(false))), ExchangeStep::Finished));
    assert!(ex.still_alive());
    assert_eq!(ex.into_output().1.len(), 0);
}

#[test]
fn drain_fails_on_a_refused_send() {
    let (mut ex, _) = TlsExchange::start(1, vec![3]);
    match ex.on_response(&encode(&Message::Status(Status::Fail))) {
        ExchangeStep::Failed(ProxyError::SessionStatusError(1, Status::Fail)) => {}
        other => panic!("unexpected {:?}", other),
    }
    let (mut ex, _) = TlsExchange::start(1, vec![3]);
    match ex.on_response(&encode(&Message::TLSDataNeeded(false))) {
        ExchangeStep::Failed(ProxyError::InvalidMessage(Message::TLSDataNeeded(false))) => {}
        other => panic!("unexpected {:?}", other),
    }
    let (mut ex, _) = TlsExchange::start(1, vec![3]);
    send(ex.on_response(&encode(&Message::Status(Status::Success))));
    match ex.on_response(&encode(&Message::TLSData(vec![], true))) {
        ExchangeStep::Failed(ProxyError::InvalidMessage(_)) => {}
        other => panic!("unexpected {:?}", other),
    }
}

#[test]
fn proxy_exists_only_after_successful_initialisation() {
    let req = SinaloaNitro::initialize_request(&"{}".to_string());
    assert_eq!(req, encode(&Message::Initialize("{}".to_string())));
    assert!(SinaloaNitro::new(&encode(&Message::Status(Status::Fail))).is_err());
    let mut p = SinaloaNitro::new(&encode(&Message::Status(Status::Success))).unwrap();
    let (ex, req) = p.tls_data(3, vec![7]);
    assert_eq!(ex.session_id(), 3);
    assert_eq!(req, encode(&Message::SendTLSData(3, vec![7])));
    assert_eq!(p.close_request(), encode(&Message::ResetEnclave));
    assert_eq!(p.close(&encode(&Message::Status(Status::Success))).unwrap(), true);
    assert!(p.close(&encode(&Message::GetEnclaveCert)).is_err());
    let _ = ExchangePhase::Done;
}

#[test]
fn proxy_operations_pair_requests_with_their_responses() {
    let p = SinaloaNitro::new(&encode(&Message::Status(Status::Success))).unwrap();
    assert_eq!(p.get_enclave_cert_request(), encode(&Message::GetEnclaveCert));
    assert_eq!(p.get_enclave_cert(&encode(&Message::EnclaveCert(vec![1]))).unwrap(), vec![1]);
    assert_eq!(p.get_enclave_name_request(), encode(&Message::GetEnclaveName));
    assert_eq!(p.get_enclave_name(&encode(&Message::EnclaveName("mc".to_string()))).unwrap(), "mc");
    assert_eq!(
        p.proxy_psa_attestation_token_request(vec![4, 4]),
        encode(&Message::GetPSAAttestationToken(vec![4, 4]))
    );
    assert_eq!(
        p.proxy_psa_attestation_get_token(&encode(&Message::PSAAttestationToken(vec![1], vec![2], 3))).unwrap(),
        (vec![1], vec![2], 3)
    );
    assert_eq!(p.new_tls_session_request(), encode(&Message::NewTLSSession));
    assert_eq!(p.new_tls_session(&encode(&Message::TLSSession(6))).unwrap(), 6);
    assert!(p.new_tls_session(&encode(&Message::TLSDataNeeded(true))).is_err());
    assert_eq!(p.close_tls_session_request(6), encode(&Message::CloseTLSSession(6)));
    assert!(p.close_tls_session(&encode(&Message::Status(Status::Success))).is_ok());
    assert!(p.close_tls_session(&encode(&Message::TLSSession(6))).is_err());
}
