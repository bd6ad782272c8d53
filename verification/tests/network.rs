use synchalo::pake::{client_pairing_start, pairing_shared_key, server_pairing_start};
use synchalo::error::AppError;
use synchalo::frames::{
    check_clipboard_message, classify_application_message, classify_handshake, expect_ack,
    expect_file_accept, expect_file_completion, expect_pair_challenge, incoming_read,
    ApplicationMessage, IncomingHandshake, WireFrame,
};
use synchalo::hlc::HlcTimestamp;
use synchalo::ids::Uuid;
use synchalo::model::{ClipboardEvent, DevicePlatform};
use synchalo::net::{
    instance_name, pairing_attempt_order, parse_peer, preferred_address, preferred_local_ip,
    service_properties, DiscoveredPeer, DiscoveryConfig, IpAddress, SocketAddress,
};
use synchalo::pairing::{PairingCodeManager, MAX_ATTEMPTS_PER_MINUTE};
use synchalo::primitives::content_hash;
use synchalo::transport::{
    authenticate_trusted_client, decode_frame_length, encode_frame, pairing_password, pairing_proof,
    trusted_client_message, verify_pairing_proof, verify_signature, TransportCredentials, TransportIdentity,
    TrustedPeer, WireDevice,
};

fn v4(a: u8, b: u8, c: u8, d: u8) -> IpAddress {
    IpAddress::V4([a, b, c, d])
}

fn v6(segments: [u16; 8]) -> IpAddress {
    let mut bytes = [0u8; 16];
    for (i, s) in segments.iter().enumerate() {
        bytes[2 * i] = (s >> 8) as u8;
        bytes[2 * i + 1] = (s & 0xff) as u8;
    }
    IpAddress::V6(bytes)
}

#[test]
fn code_is_six_digits_and_single_use() {
    let mut manager = PairingCodeManager::new();
    let view = manager.generate(60_000, 1_000, 1_000).unwrap();
    let compact = view.code.replace(' ', "");
    assert_eq!(compact.len(), 6);
    assert!(compact.chars().all(|char| char.is_ascii_digit()));
    assert!(manager.validate_and_consume(&compact, 2_000).unwrap());
    assert!(!manager.validate_and_consume(&compact, 3_000).unwrap());
}

#[test]
fn pairing_attempts_are_rate_limited() {
    let mut manager = PairingCodeManager::new();
    let generated = manager.generate(60_000, 1_000, 1_000).unwrap();
    let candidate = if generated.code.replace(' ', "") == "000000" { "111111" } else { "000000" };
    for _ in 0..MAX_ATTEMPTS_PER_MINUTE {
        assert!(!manager.validate_and_consume(candidate, 2_000).unwrap());
    }
    assert!(manager.validate_and_consume(candidate, 2_000).is_err());
}

#[test]
fn expired_codes_are_refused_and_attempts_age_out() {
    let mut manager = PairingCodeManager::new();
    let view = manager.generate_from(123_456, 60_000, 0, 5_000);
    assert_eq!(view.code, "123 456");
    assert_eq!(view.expires_at_ms, 65_000);
    assert!(!manager.validate_and_consume("123456", 60_000).unwrap());
    assert!(manager.current(60_000).is_none());
    for _ in 1..MAX_ATTEMPTS_PER_MINUTE {
        assert!(!manager.validate_and_consume("000000", 70_000).unwrap());
    }
    assert!(manager.validate_and_consume("000000", 70_000).is_err());
    assert!(manager.validate_and_consume("000000", 130_001).is_ok());
}

#[test]
fn network_pairing_consumes_only_the_offered_code() {
    let mut manager = PairingCodeManager::new();
    manager.generate_from(42, 60_000, 0, 0);
    assert_eq!(manager.begin_network_attempt(10).unwrap(), Some("000042".to_owned()));
    assert!(!manager.consume_active_code(b"000043", 20));
    assert!(manager.consume_active_code(b"000042", 20));
    assert_eq!(manager.begin_network_attempt(30).unwrap(), None);
}

#[test]
fn frames_carry_a_big_endian_length() {
    let frame = encode_frame(b"hello").unwrap();
    assert_eq!(&frame[..4], &[0, 0, 0, 5]);
    assert_eq!(&frame[4..], b"hello");
    assert_eq!(decode_frame_length(&frame[..4]).unwrap(), 5);
    assert!(decode_frame_length(&[0, 0x20, 0, 1]).is_err());
}

#[test]
fn pairing_needs_six_digits_and_a_matching_proof() {
    assert_eq!(pairing_password("12 34-56").unwrap(), "123456");
    assert!(matches!(pairing_password("12345"), Err(AppError::InvalidInput(_))));
    let proof = pairing_proof(b"key", b"client", b"transcript");
    assert!(verify_pairing_proof(b"key", b"client", b"transcript", &proof).is_ok());
    assert!(verify_pairing_proof(b"key", b"server", b"transcript", &proof).is_err());
    assert!(verify_pairing_proof(b"other", b"client", b"transcript", &proof).is_err());
}

fn identity(name: &str, id: u8, space: u8) -> TransportIdentity {
    TransportIdentity {
        device_id: Uuid::from_bytes([id; 16]),
        device_name: name.to_owned(),
        platform: DevicePlatform::Linux,
        space_id: Uuid::from_bytes([space; 16]),
        credentials: TransportCredentials {
            certificate_der: vec![1, 2, 3],
            private_key_der: vec![4, 5, 6],
            signing_key: [id; 32],
        },
    }
}

fn trusted(identity: &TransportIdentity) -> TrustedPeer {
    WireDevice::from_identity(identity).into_trusted_peer().unwrap()
}

#[test]
fn trusted_handshake_accepts_only_a_signed_request_from_the_same_space() {
    let client = identity("Client", 1, 9);
    let server = identity("Server", 2, 9);
    let peer = trusted(&client);
    let nonce = [7u8; 32];
    let message = trusted_client_message(&client.device_id, &server.device_id, &server.space_id, &nonce);
    let signature = client.credentials.sign(&message);
    assert!(authenticate_trusted_client(Some(&peer), &server, &client.device_id, &nonce, &signature).is_ok());
    let mut forged = signature.clone();
    forged[0] ^= 1;
    assert!(authenticate_trusted_client(Some(&peer), &server, &client.device_id, &nonce, &forged).is_err());
    assert!(authenticate_trusted_client(None, &server, &client.device_id, &nonce, &signature).is_err());
    assert!(authenticate_trusted_client(Some(&peer), &server, &client.device_id, &nonce[..31], &signature).is_err());
    let other_space = identity("Server", 2, 8);
    assert!(matches!(
        authenticate_trusted_client(Some(&peer), &other_space, &client.device_id, &nonce, &signature),
        Err(AppError::SyncSpaceMismatch)
    ));
}

#[test]
fn wire_devices_are_checked_before_they_are_trusted() {
    let client = identity("Client", 3, 9);
    let mut wire = WireDevice::from_identity(&client);
    wire.protocol_version = 1;
    match wire.into_trusted_peer() {
        Err(AppError::Network(m)) => assert_eq!(m, "protocol version 1 is not supported"),
        _ => panic!("expected an old protocol"),
    }
    let mut big = WireDevice::from_identity(&client);
    big.certificate_der = vec![0; 64 * 1024 + 1];
    match big.into_trusted_peer() {
        Err(AppError::Network(m)) => assert_eq!(m, "protocol error: certificate is too large"),
        _ => panic!("expected a large certificate"),
    }
}

fn event(peer: &TransportIdentity, content: &str) -> ClipboardEvent {
    ClipboardEvent {
        id: Uuid::from_bytes([8; 16]),
        space_id: peer.space_id,
        origin_device_id: peer.device_id,
        origin_sequence: 1,
        created_at_ms: 10,
        hlc: HlcTimestamp { physical_ms: 10, logical: 0 },
        content: content.to_owned(),
        content_hash: content_hash(content.as_bytes()),
    }
}

#[test]
fn clipboard_messages_are_checked_before_they_are_applied() {
    let sender = identity("Client", 4, 9);
    let peer = trusted(&sender);
    let message = event(&sender, "hello from client");
    let bytes = b"signed event bytes".to_vec();
    let signature = sender.credentials.sign(&bytes);
    let space = sender.space_id;
    assert!(check_clipboard_message(&message, &signature, &bytes, &sender.device_id, &space, Some(&peer)).is_ok());
    let other = Uuid::from_bytes([5; 16]);
    match check_clipboard_message(&message, &signature, &bytes, &other, &space, Some(&peer)) {
        Err(AppError::Network(m)) => assert_eq!(m, "protocol error: clipboard origin does not match connection"),
        _ => panic!("expected an origin mismatch"),
    }
    let mut wrong_hash = message.clone();
    wrong_hash.content_hash = "00".repeat(32);
    match check_clipboard_message(&wrong_hash, &signature, &bytes, &sender.device_id, &space, Some(&peer)) {
        Err(AppError::Network(m)) => assert_eq!(m, "protocol error: clipboard content hash mismatch"),
        _ => panic!("expected a hash mismatch"),
    }
    let empty = event(&sender, "");
    match check_clipboard_message(&empty, &signature, &bytes, &sender.device_id, &space, Some(&peer)) {
        Err(AppError::Network(m)) => assert_eq!(m, "protocol error: clipboard payload size is invalid"),
        _ => panic!("expected an empty payload"),
    }
    match check_clipboard_message(&message, &signature, &bytes, &sender.device_id, &space, None) {
        Err(AppError::Network(m)) => assert_eq!(m, "device is no longer trusted"),
        _ => panic!("expected an untrusted sender"),
    }
    assert!(check_clipboard_message(&message, &signature, b"other bytes", &sender.device_id, &space, Some(&peer)).is_err());
}

#[test]
fn replies_are_accepted_only_in_their_place() {
    assert!(expect_ack(WireFrame::Ack).is_ok());
    match expect_ack(WireFrame::Error { message: "busy".to_owned() }) {
        Err(AppError::Network(m)) => assert_eq!(m, "busy"),
        _ => panic!("expected the peer's error"),
    }
    assert_eq!(expect_file_accept(WireFrame::FileAccept { resume_offset: 7 }, 10).unwrap(), 7);
    assert!(expect_file_accept(WireFrame::FileAccept { resume_offset: 11 }, 10).is_err());
    assert!(matches!(expect_file_completion(WireFrame::FileFailed { message: "disk".to_owned() }), Err(AppError::File(_))));
    match classify_handshake(WireFrame::Ack) {
        Err(AppError::Network(m)) => assert_eq!(m, "protocol error: invalid handshake"),
        _ => panic!("expected an invalid handshake"),
    }
    assert!(matches!(
        classify_handshake(WireFrame::TrustedStart { device_id: Uuid::nil(), nonce: vec![], signature: vec![] }),
        Ok(IncomingHandshake::Trusted { .. })
    ));
    assert!(matches!(classify_application_message(WireFrame::FileCompleted), Err(AppError::Network(_))));
    let client = identity("Server", 6, 9);
    let wire = WireDevice::from_identity(&client);
    let other = Uuid::from_bytes([1; 16]);
    match expect_pair_challenge(WireFrame::PairChallenge { device: wire, spake_message: vec![] }, &other) {
        Err(AppError::Network(m)) => assert_eq!(m, "protocol error: discovered device identity changed"),
        _ => panic!("expected a changed identity"),
    }
    let manifest = synchalo::transfer::FileManifest {
        id: Uuid::nil(),
        file_name: "a.txt".to_owned(),
        file_size: 1,
        blake3: "0".repeat(64),
        modified_unix_ms: None,
        chunk_blake3: Vec::new(),
    };
    assert!(matches!(classify_application_message(WireFrame::FileOffer { manifest }), Ok(ApplicationMessage::FileOffer { .. })));
}

#[test]
fn file_streams_report_how_they_end() {
    assert_eq!(incoming_read(10, 4, Ok(Some(3))).unwrap(), 7);
    match incoming_read(10, 4, Ok(None)) {
        Err(AppError::File(m)) => assert_eq!(m, "file stream ended early; the partial file can be resumed"),
        _ => panic!("expected an early end"),
    }
    match incoming_read(10, 4, Err("reset".to_owned())) {
        Err(AppError::File(m)) => assert_eq!(m, "file stream interrupted: reset"),
        _ => panic!("expected an interruption"),
    }
}

#[test]
fn prefers_lan_ipv4_and_has_stable_order() {
    let fd00 = v6([0xfd00, 0, 0, 0, 0, 0, 0, 1]);
    assert_eq!(
        preferred_local_ip(&vec![fd00, v4(8, 8, 8, 8), v4(192, 168, 1, 12), v4(10, 0, 0, 2)]),
        Some(v4(10, 0, 0, 2))
    );
    assert_eq!(preferred_local_ip(&vec![fd00]), Some(fd00));
}

#[test]
fn unavailable_network_does_not_show_unusable_addresses() {
    assert_eq!(preferred_local_ip(&vec![]), None);
    assert_eq!(
        preferred_local_ip(&vec![
            v4(127, 0, 0, 1),
            v6([0, 0, 0, 0, 0, 0, 0, 1]),
            v4(0, 0, 0, 0),
            v6([0; 8]),
            v4(224, 0, 0, 1),
            v6([0xff02, 0, 0, 0, 0, 0, 0, 1]),
            v4(169, 254, 1, 1),
            v6([0xfe80, 0, 0, 0, 0, 0, 0, 1]),
            v4(255, 255, 255, 255),
        ]),
        None
    );
}

#[test]
fn discovered_devices_are_dialled_over_ipv4_first() {
    let list = vec![v4(127, 0, 0, 1), v6([0xfd00, 0, 0, 0, 0, 0, 0, 2]), v4(192, 168, 0, 9)];
    assert_eq!(preferred_address(&list), Some(v4(192, 168, 0, 9)));
    assert_eq!(preferred_address(&vec![v4(127, 0, 0, 1), v6([0xfd00, 0, 0, 0, 0, 0, 0, 2])]), Some(v6([0xfd00, 0, 0, 0, 0, 0, 0, 2])));
    assert_eq!(preferred_address(&vec![v4(127, 0, 0, 1)]), None);
}

#[test]
fn pairing_flag_can_be_republished() {
    let id = Uuid::from_bytes([0xab; 16]);
    let mut config = DiscoveryConfig {
        device_id: id,
        device_name: "Discovery test".to_owned(),
        platform: DevicePlatform::Linux,
        port: 53327,
        pairing_open: false,
    };
    assert_eq!(instance_name(&id), format!("sh-{}", &id.to_simple()[..12]));
    let props = service_properties(&config);
    assert_eq!(props[4], ("pair".to_owned(), "0".to_owned()));
    config.pairing_open = true;
    let props = service_properties(&config);
    assert_eq!(props[0], ("v".to_owned(), "2".to_owned()));
    assert_eq!(props[3], ("platform".to_owned(), "linux".to_owned()));
    assert_eq!(props[4], ("pair".to_owned(), "1".to_owned()));
}

#[test]
fn announcements_are_read_into_peers() {
    let local = Uuid::from_bytes([1; 16]);
    let remote = Uuid::from_bytes([2; 16]).to_hyphenated();
    let addresses = vec![v4(192, 168, 1, 4)];
    let peer = parse_peer(Some(&remote), None, Some("macos"), Some("2"), Some("1"), &addresses, 53317, "x._synchalo._udp.local.", &local).unwrap();
    assert_eq!(peer.device_name, "附近设备");
    assert_eq!(peer.platform, DevicePlatform::Macos);
    assert_eq!(peer.protocol_version, 2);
    assert!(peer.pairing_open);
    assert_eq!(peer.address, SocketAddress { ip: v4(192, 168, 1, 4), port: 53317 });
    let own = local.to_hyphenated();
    assert!(parse_peer(Some(&own), None, None, None, None, &addresses, 1, "", &local).is_none());
    assert!(parse_peer(Some(&remote), None, None, Some("x"), None, &vec![], 1, "", &local).is_none());
    let odd = parse_peer(Some(&remote), Some("Box"), Some("beos"), Some("99999"), Some("0"), &addresses, 1, "", &local).unwrap();
    assert_eq!(odd.platform, DevicePlatform::Unknown);
    assert_eq!(odd.protocol_version, 0);
    assert!(!odd.pairing_open);
}

fn discovered(id: u8, open: bool) -> DiscoveredPeer {
    DiscoveredPeer {
        device_id: Uuid::from_bytes([id; 16]),
        device_name: format!("peer {id}"),
        platform: DevicePlatform::Linux,
        address: SocketAddress { ip: v4(10, 0, 0, id), port: 1 },
        pairing_open: open,
        protocol_version: 2,
        fullname: String::new(),
    }
}

#[test]
fn pairing_codes_are_tried_on_the_three_lowest_open_devices() {
    let peers = vec![discovered(9, true), discovered(3, true), discovered(5, false), discovered(7, true), discovered(1, true)];
    assert_eq!(pairing_attempt_order(&peers), vec![4, 1, 3]);
    assert_eq!(pairing_attempt_order(&vec![discovered(2, false)]), Vec::<usize>::new());
}

#[test]
fn fresh_credentials_sign_and_fingerprint_their_certificate() {
    let credentials = TransportCredentials::generate().unwrap();
    assert!(!credentials.certificate_der.is_empty());
    assert!(!credentials.private_key_der.is_empty());
    let signature = credentials.sign(b"hello");
    assert!(verify_signature(&credentials.verifying_key(), b"hello", &signature).is_ok());
    assert!(verify_signature(&credentials.verifying_key(), b"other", &signature).is_err());
    assert_eq!(credentials.certificate_fingerprint(), content_hash(&credentials.certificate_der));
    let other = TransportCredentials::generate().unwrap();
    assert_ne!(other.signing_key, credentials.signing_key);
    assert_ne!(other.certificate_der, credentials.certificate_der);
}

#[test]
fn pairing_key_exchange_agrees_on_one_key() {
    let client = Uuid::from_bytes([1; 16]);
    let server = Uuid::from_bytes([2; 16]);
    let (client_state, client_message) = client_pairing_start("123-456", &client, &server).unwrap();
    assert_eq!(client_message.len(), 33);
    assert_eq!(client_message[0], 0x41);
    let (server_state, server_message) = server_pairing_start("123456", &client, &server);
    assert_eq!(server_message.len(), 33);
    assert_eq!(server_message[0], 0x42);
    let client_key = pairing_shared_key(client_state, &server_message).unwrap();
    let server_key = pairing_shared_key(server_state, &client_message).unwrap();
    assert_eq!(client_key.len(), 32);
    assert_eq!(client_key, server_key);
    let proof = pairing_proof(&client_key, b"client", b"transcript");
    assert_eq!(proof.len(), 32);
    assert!(verify_pairing_proof(&server_key, b"client", b"transcript", &proof).is_ok());
}

#[test]
fn pairing_key_exchange_refuses_bad_codes_and_messages() {
    let client = Uuid::from_bytes([1; 16]);
    let server = Uuid::from_bytes([2; 16]);
    match client_pairing_start("12345", &client, &server) {
        Err(AppError::InvalidInput(m)) => assert_eq!(m, "pairing code must contain six digits"),
        _ => panic!("expected the six-digit error"),
    }
    let (state, _) = server_pairing_start("123456", &client, &server);
    match pairing_shared_key(state, &[0x41, 1, 2]) {
        Err(AppError::Network(m)) => assert_eq!(m, "pairing key agreement failed"),
        _ => panic!("expected the key agreement error"),
    }
    let (server_state, _) = server_pairing_start("123456", &client, &server);
    let (_, other_server_message) = server_pairing_start("123456", &client, &server);
    match pairing_shared_key(server_state, &other_server_message) {
        Err(AppError::Network(m)) => assert_eq!(m, "pairing key agreement failed"),
        _ => panic!("a message from the same side must be refused"),
    }
    let (wrong_code, wrong_message) = client_pairing_start("654321", &client, &server).unwrap();
    let (right, right_message) = server_pairing_start("123456", &client, &server);
    let a = pairing_shared_key(wrong_code, &right_message).unwrap();
    let b = pairing_shared_key(right, &wrong_message).unwrap();
    assert_ne!(a, b);
}
