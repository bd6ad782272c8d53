use synchalo::aad::clipboard_associated_data_v2;
use synchalo::key_file::{keychain_key_material, SecretLookup};
use synchalo::error::AppError;
use synchalo::hlc::HlcTimestamp;
use synchalo::ids::Uuid;
use synchalo::key_file::{
    encode_key_file, key_bootstrap_plan, missing_credentials_source, parse_key_file, CredentialSource,
    KeyBootstrapPlan, LocalKeySource, KEY_FILE_BYTES,
};
use synchalo::keyring::{
    create_keyring, decode_data_key, encode_data_key, generate_data_key, open_keyring, CryptoBox, LegacyClipboardRow,
    WrappedDataKeyRow, DATA_KEY_BYTES,
};
use synchalo::model::{ClipboardDirection, ClipboardItemView};
use synchalo::records::{
    decrypt_clipboard_row, direction_from_json, open_local_secret, seal_clipboard_item, seal_local_secret, IdentityRecord,
};

fn item(content: &str) -> ClipboardItemView {
    ClipboardItemView {
        id: Uuid::from_bytes([1; 16]),
        content: content.to_owned(),
        content_hash: synchalo::primitives::content_hash(content.as_bytes()),
        source_device_id: Uuid::from_bytes([2; 16]),
        source_device_name: "Mac".to_owned(),
        direction: ClipboardDirection::Local,
        created_at_ms: 1_700_000_000_000,
        hlc: HlcTimestamp { physical_ms: 1_700_000_000_000, logical: 3 },
        pinned: false,
    }
}

fn fresh_ring(kek: &[u8; 32]) -> (synchalo::keyring::DataKeyring, WrappedDataKeyRow) {
    create_keyring("db-1", kek, &Vec::new(), None).unwrap()
}

#[test]
fn ciphertext_is_bound_to_record_id() {
    let crypto = CryptoBox::new(&[7_u8; DATA_KEY_BYTES]);
    let (nonce, ciphertext) = crypto.encrypt(b"secret", b"record-a").unwrap();

    assert_eq!(crypto.decrypt(&nonce, &ciphertext, b"record-a").unwrap(), b"secret");
    assert!(crypto.decrypt(&nonce, &ciphertext, b"record-b").is_err());
}

#[test]
fn data_key_text_round_trips() {
    let key = [9_u8; 32];
    let text = encode_data_key(&key);
    assert_eq!(decode_data_key(&text).unwrap(), key);
    assert!(matches!(decode_data_key("c2hvcnQ"), Err(AppError::Crypto)));
    assert!(matches!(decode_data_key("***"), Err(AppError::Crypto)));
}

#[test]
fn database_requires_the_key_encryption_key_to_unwrap_its_data_key() {
    let (_, row) = fresh_ring(&[11_u8; 32]);
    let rows = vec![row];
    assert!(open_keyring("db-1", &[11_u8; 32], &rows, 0).is_ok());
    assert!(matches!(open_keyring("db-1", &[12_u8; 32], &rows, 0), Err(AppError::Crypto)));
    assert!(matches!(open_keyring("db-2", &[11_u8; 32], &rows, 0), Err(AppError::Crypto)));
}

#[test]
fn wrapped_data_key_tampering_is_detected() {
    let (_, mut row) = fresh_ring(&[16_u8; 32]);
    row.wrapped_key[0] ^= 1;
    assert!(open_keyring("db-1", &[16_u8; 32], &vec![row], 0).is_err());
}

#[test]
fn stored_key_ring_faults_are_reported() {
    let (_, row) = fresh_ring(&[3_u8; 32]);
    match open_keyring("db-1", &[3_u8; 32], &Vec::new(), 0) {
        Err(AppError::Storage(m)) => assert_eq!(m, "active clipboard data key is missing"),
        _ => panic!("expected a missing key"),
    }
    match open_keyring("db-1", &[3_u8; 32], &vec![row.clone(), row.clone()], 0) {
        Err(AppError::Storage(m)) => assert_eq!(m, "multiple active clipboard data keys"),
        _ => panic!("expected two active keys"),
    }
    match open_keyring("db-1", &[3_u8; 32], &vec![row.clone()], 2) {
        Err(AppError::Storage(m)) => assert_eq!(m, "clipboard rows reference an unavailable data key"),
        _ => panic!("expected dangling references"),
    }
    let mut odd = row.clone();
    odd.status = "paused".to_owned();
    match open_keyring("db-1", &[3_u8; 32], &vec![odd], 0) {
        Err(AppError::Storage(m)) => assert_eq!(m, "invalid wrapped data key status paused"),
        _ => panic!("expected an invalid status"),
    }
}

#[test]
fn clipboard_content_is_encrypted_and_read_back() {
    let (ring, row) = fresh_ring(&[21_u8; 32]);
    let ring = open_keyring("db-1", &[21_u8; 32], &vec![row], 0).unwrap();
    let sealed_item = item("cargo test --workspace");
    let sealed = seal_clipboard_item(&ring, &sealed_item).unwrap();
    assert_ne!(sealed.ciphertext, sealed_item.content.as_bytes());
    assert_eq!(sealed.direction, "\"local\"");
    assert_eq!(sealed.event_id, "01010101-0101-0101-0101-010101010101");
    let back = decrypt_clipboard_row(&ring, sealed).unwrap();
    assert_eq!(back.content, "cargo test --workspace");
    assert!(back.id.same(&sealed_item.id));
    assert_eq!(back.direction, ClipboardDirection::Local);
    assert_eq!(back.hlc, sealed_item.hlc);
    drop(ring);
}

#[test]
fn clipboard_metadata_is_authenticated() {
    let (ring, _) = fresh_ring(&[22_u8; 32]);
    let mut sealed = seal_clipboard_item(&ring, &item("authenticated metadata")).unwrap();
    sealed.source_device_id = Uuid::from_bytes([9; 16]).to_hyphenated();
    assert!(matches!(decrypt_clipboard_row(&ring, sealed), Err(AppError::Crypto)));
}

#[test]
fn clipboard_rows_report_each_fault() {
    let (ring, _) = fresh_ring(&[23_u8; 32]);
    let sealed = seal_clipboard_item(&ring, &item("x")).unwrap();
    let mut no_key = sealed.clone();
    no_key.key_id = None;
    match decrypt_clipboard_row(&ring, no_key) {
        Err(AppError::Storage(m)) => assert_eq!(m, "clipboard row has no data key"),
        _ => panic!("expected a missing key"),
    }
    let mut version = sealed.clone();
    version.crypto_version = -3;
    match decrypt_clipboard_row(&ring, version) {
        Err(AppError::Storage(m)) => assert_eq!(m, "unsupported clipboard encryption version -3"),
        _ => panic!("expected an unknown version"),
    }
    let mut unknown = sealed.clone();
    unknown.key_id = Some("other".to_owned());
    match decrypt_clipboard_row(&ring, unknown) {
        Err(AppError::Storage(m)) => assert_eq!(m, "unknown data key other"),
        _ => panic!("expected an unknown key"),
    }
    let mut bad_id = sealed;
    bad_id.event_id = "nope".to_owned();
    assert!(matches!(decrypt_clipboard_row(&ring, bad_id), Err(AppError::Storage(_))));
}

#[test]
fn local_secret_is_encrypted_and_authenticated() {
    let (ring, _) = fresh_ring(&[31_u8; 32]);
    let row = seal_local_secret(&ring, "transport-credentials-v1", b"private identity").unwrap();
    assert_eq!(
        open_local_secret(&ring, "transport-credentials-v1", &row).unwrap(),
        b"private identity"
    );
    assert!(matches!(open_local_secret(&ring, "other-secret", &row), Err(AppError::Crypto)));
    let mut tampered = row.clone();
    tampered.ciphertext[0] ^= 0x80;
    assert!(open_local_secret(&ring, "transport-credentials-v1", &tampered).is_err());
    let mut version = row;
    version.crypto_version = 7;
    match open_local_secret(&ring, "transport-credentials-v1", &version) {
        Err(AppError::Storage(m)) => assert_eq!(m, "unsupported local secret encryption version 7"),
        _ => panic!("expected an unknown version"),
    }
    assert!(matches!(seal_local_secret(&ring, "", b"x"), Err(AppError::InvalidInput(_))));
    assert!(matches!(seal_local_secret(&ring, &"a".repeat(129), b"x"), Err(AppError::InvalidInput(_))));
}

#[test]
fn legacy_data_key_becomes_the_wrapped_active_key() {
    let legacy_key = [41_u8; 32];
    let legacy_box = CryptoBox::new(&legacy_key);
    let event = Uuid::from_bytes([5; 16]);
    let (nonce, ciphertext) = legacy_box.encrypt(b"legacy clipboard content", &event.bytes).unwrap();
    let rows = vec![LegacyClipboardRow { event_id: event.to_hyphenated(), nonce, ciphertext }];
    let (_, wrapped) = create_keyring("db-9", &[51_u8; 32], &rows, Some(legacy_key)).unwrap();
    assert_eq!(wrapped.status, "active");
    let reopened = open_keyring("db-9", &[51_u8; 32], &vec![wrapped], 0).unwrap();
    let (_, active) = reopened.active();
    assert_eq!(active.decrypt(&rows[0].nonce, &rows[0].ciphertext, &event.bytes).unwrap(), b"legacy clipboard content");
    match create_keyring("db-9", &[51_u8; 32], &rows, None) {
        Err(AppError::Storage(m)) => assert_eq!(m, "legacy clipboard data exists but its data key is unavailable"),
        _ => panic!("expected a missing legacy key"),
    }
    assert!(matches!(create_keyring("db-9", &[51_u8; 32], &rows, Some([62_u8; 32])), Err(AppError::Crypto)));
}

#[test]
fn identity_is_stable_and_clock_is_monotonic() {
    let mut identity = IdentityRecord::new("Mac");
    let device_id = identity.device_id;
    let (sequence_a, clock_a) = identity.next_event_clock(100);
    let (sequence_b, clock_b) = identity.next_event_clock(90);
    assert!(identity.device_id.same(&device_id));
    assert_eq!(sequence_b, sequence_a + 1);
    assert!(clock_b > clock_a);
    let merged = identity.merge_remote_clock(HlcTimestamp { physical_ms: 500, logical: 2 }, 90);
    assert_eq!(merged, HlcTimestamp { physical_ms: 500, logical: 3 });
}

#[test]
fn local_key_file_round_trips() {
    let key = [37_u8; 32];
    let bytes = encode_key_file(&key, LocalKeySource::KeychainMigration);
    assert_eq!(bytes.len(), KEY_FILE_BYTES);
    assert!(bytes.starts_with(b"SYNCHALO-LOCAL-KEY-V1\n"));
    let loaded = parse_key_file(&bytes, true).unwrap();
    assert!(loaded.pending);
    assert_eq!(loaded.source, LocalKeySource::KeychainMigration);
    assert_eq!(loaded.key, key);
}

#[test]
fn malformed_local_key_is_rejected() {
    match parse_key_file(b"not-a-key", false) {
        Err(AppError::Storage(m)) => assert_eq!(m, "invalid local key file"),
        _ => panic!("expected a malformed key file"),
    }
    let mut bytes = encode_key_file(&[1; 32], LocalKeySource::Fresh);
    bytes[22] = 9;
    match parse_key_file(&bytes, false) {
        Err(AppError::Storage(m)) => assert_eq!(m, "invalid local key source"),
        _ => panic!("expected an invalid source"),
    }
}

#[test]
fn key_setup_follows_the_key_file_then_the_keychain() {
    assert_eq!(
        key_bootstrap_plan(Some((LocalKeySource::KeychainMigration, true)), true),
        KeyBootstrapPlan::UseKeyFile { load_legacy_key: true }
    );
    assert_eq!(
        key_bootstrap_plan(Some((LocalKeySource::Fresh, true)), true),
        KeyBootstrapPlan::UseKeyFile { load_legacy_key: false }
    );
    assert_eq!(key_bootstrap_plan(None, true), KeyBootstrapPlan::MigrateFromKeychain);
    assert_eq!(key_bootstrap_plan(None, false), KeyBootstrapPlan::Fresh);
    assert_eq!(missing_credentials_source(Some(LocalKeySource::KeychainMigration), true).unwrap(), CredentialSource::Keychain);
    assert_eq!(missing_credentials_source(None, false).unwrap(), CredentialSource::Generate);
    assert!(matches!(missing_credentials_source(None, true), Err(AppError::Storage(_))));
}

#[test]
fn keychain_material_prefers_the_stored_key() {
    let kek = encode_data_key(&[1; 32]);
    let legacy = encode_data_key(&[2; 32]);
    let (k, l) = keychain_key_material(SecretLookup::Found(kek.clone()), SecretLookup::Missing).unwrap();
    assert_eq!((k, l), ([1; 32], None));
    let (_, l) = keychain_key_material(SecretLookup::Missing, SecretLookup::Found(legacy)).unwrap();
    assert_eq!(l, Some([2; 32]));
    match keychain_key_material(SecretLookup::Missing, SecretLookup::Missing) {
        Err(AppError::Storage(m)) => assert_eq!(m, "existing database key is unavailable"),
        _ => panic!("expected a missing key"),
    }
    match keychain_key_material(SecretLookup::Failed("locked".to_owned()), SecretLookup::Missing) {
        Err(AppError::Storage(m)) => assert_eq!(m, "keychain migration failed: locked"),
        _ => panic!("expected a keychain failure"),
    }
}

#[test]
fn fresh_data_keys_differ_and_read_back() {
    let a = generate_data_key().unwrap();
    let b = generate_data_key().unwrap();
    assert_ne!(a, b);
    assert_eq!(decode_data_key(&encode_data_key(&a)).unwrap(), a);
    assert_eq!(encode_data_key(&[0_u8; 32]), "AAAAAAAAAAAAAAAAAAAAAAAAAAAAAAAAAAAAAAAAAAA");
}

#[test]
fn stored_directions_are_read_as_json() {
    assert_eq!(direction_from_json("\"received\"").unwrap(), ClipboardDirection::Received);
    assert_eq!(direction_from_json("\"\\u006cocal\"").unwrap(), ClipboardDirection::Local);
    assert!(matches!(direction_from_json("local"), Err(AppError::Storage(_))));
    assert!(matches!(direction_from_json("\"sideways\""), Err(AppError::Storage(_))));
}

#[test]
fn stored_times_outside_the_calendar_are_refused() {
    let (ring, _) = fresh_ring(&[21_u8; 32]);
    let mut far = item("far future");
    far.created_at_ms = i64::MAX;
    let row = seal_clipboard_item(&ring, &far).unwrap();
    match decrypt_clipboard_row(&ring, row) {
        Err(AppError::Storage(message)) => assert_eq!(message, format!("invalid timestamp {}", i64::MAX)),
        other => panic!("unexpected result {other:?}"),
    }
}

#[test]
fn clipboard_associated_data_tells_rows_apart() {
    let a = clipboard_associated_data_v2("ab", "c", "n", "local", 1, 2, 3, "h", "k");
    let b = clipboard_associated_data_v2("a", "bc", "n", "local", 1, 2, 3, "h", "k");
    let c = clipboard_associated_data_v2("ab", "c", "n", "local", 1, 2, 4, "h", "k");
    assert_ne!(a, b);
    assert_ne!(a, c);
    assert_eq!(a, clipboard_associated_data_v2("ab", "c", "n", "local", 1, 2, 3, "h", "k"));
    assert!(a.starts_with(b"synchalo:clipboard-content\x02\0\0\0\0\0\0\0"));
}
