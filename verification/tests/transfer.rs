use synchalo::primitives::content_hash;
use synchalo::transfer::check_received_chunk;
use synchalo::transfer::{already_received, complete_target, FileTime, SourceFingerprint};
use synchalo::error::AppError;
use synchalo::ids::Uuid;
use synchalo::transfer::{
    check_content_hash, check_free_space, check_received_file, choose_destination, destination_candidate,
    next_chunk_len, partial_file_name, resume_offset, safe_file_name, validate_manifest, FileManifest,
    DISK_SAFETY_MARGIN_BYTES, TRANSFER_CHUNK_BYTES,
};

fn manifest(name: &str, digest: &str) -> FileManifest {
    FileManifest {
        id: Uuid::from_bytes([3; 16]),
        file_name: name.to_owned(),
        file_size: 1,
        blake3: digest.to_owned(),
        modified_unix_ms: None,
        chunk_blake3: Vec::new(),
    }
}

#[test]
fn incoming_manifest_rejects_path_traversal() {
    let m = manifest("../../escape.txt", &"0".repeat(64));
    match validate_manifest(&m) {
        Err(AppError::File(message)) => assert_eq!(message, "unsafe file name in manifest"),
        _ => panic!("expected an unsafe name"),
    }
}

#[test]
fn manifests_need_one_safe_name_and_a_digest() {
    let digest = "aB".repeat(32);
    assert!(validate_manifest(&manifest("notes.txt", &digest)).is_ok());
    let expect = |name: &str, digest: &str, text: &str| match validate_manifest(&manifest(name, digest)) {
        Err(AppError::File(m)) => assert_eq!(m, text),
        _ => panic!("expected {text} for {name}"),
    };
    expect("", &digest, "unsafe file name in manifest");
    expect(".", &digest, "invalid file name");
    expect("..", &digest, "invalid file name");
    expect("a\\b", &digest, "unsafe file name");
    expect("a\0b", &digest, "unsafe file name");
    expect("/", &digest, "invalid file name");
    expect("notes/", &digest, "unsafe file name in manifest");
    expect("notes.txt", &"0".repeat(63), "invalid BLAKE3 digest in manifest");
    expect("notes.txt", &"g".repeat(64), "invalid BLAKE3 digest in manifest");
}

#[test]
fn local_file_names_are_checked() {
    assert_eq!(safe_file_name(Some("photo.jpg")).unwrap(), "photo.jpg");
    assert!(matches!(safe_file_name(None), Err(AppError::File(_))));
    assert!(matches!(safe_file_name(Some("..")), Err(AppError::File(_))));
}

#[test]
fn copy_is_verified_and_does_not_overwrite_different_content() {
    assert_eq!(destination_candidate("notes.txt", 2), "notes (2).txt");
    let taken = ["notes.txt".to_owned()];
    let chosen = choose_destination("notes.txt", true, false, |name: &str| taken.iter().any(|t| t == name)).unwrap();
    assert_eq!(chosen, "notes (2).txt");
    assert_eq!(choose_destination("notes.txt", true, true, |_: &str| true).unwrap(), "notes.txt");
    assert_eq!(choose_destination("notes.txt", false, false, |_: &str| true).unwrap(), "notes.txt");
    match choose_destination("notes.txt", true, false, |_: &str| true) {
        Err(AppError::File(m)) => assert_eq!(m, "unable to choose a non-conflicting destination name"),
        _ => panic!("expected no free name"),
    }
    assert!(check_content_hash("abc", "abc").is_ok());
    match check_content_hash("abc", "abd") {
        Err(AppError::File(m)) => assert_eq!(m, "file hash mismatch: expected abc, got abd"),
        _ => panic!("expected a mismatch"),
    }
}

#[test]
fn alternative_names_keep_the_extension() {
    assert_eq!(destination_candidate("archive.tar.gz", 3), "archive.tar (3).gz");
    assert_eq!(destination_candidate("README", 2), "README (2)");
    assert_eq!(destination_candidate(".bashrc", 2), ".bashrc (2)");
    assert_eq!(destination_candidate("trailing.", 4), "trailing (4).");
}

#[test]
fn incoming_file_resumes_from_existing_partial_offset() {
    let id = Uuid::from_bytes([0x11; 16]);
    assert_eq!(partial_file_name(&id), format!(".synchalo-{}.part", id.to_hyphenated()));
    let m = FileManifest {
        id,
        file_name: "resume.bin".to_owned(),
        file_size: 28,
        blake3: "h".to_owned(),
        modified_unix_ms: None,
        chunk_blake3: Vec::new(),
    };
    assert_eq!(resume_offset(&m, 7, &Vec::new()), (7, false));
    assert_eq!(resume_offset(&m, 30, &Vec::new()), (0, true));
    assert!(check_received_file(&m, 28, "h").is_ok());
    match check_received_file(&m, 20, "h") {
        Err(AppError::File(msg)) => assert_eq!(msg, "received 20 bytes but expected 28"),
        _ => panic!("expected a short file"),
    }
}

#[test]
fn incoming_files_need_room_to_spare() {
    assert!(check_free_space(1000, 0, 1000 + DISK_SAFETY_MARGIN_BYTES).is_ok());
    match check_free_space(1000, 200, 10) {
        Err(AppError::DiskFull { required, available }) => {
            assert_eq!(required, 800 + DISK_SAFETY_MARGIN_BYTES);
            assert_eq!(available, 10);
        }
        _ => panic!("expected a full disk"),
    }
    match check_free_space(u64::MAX, 0, 10) {
        Err(AppError::DiskFull { required, .. }) => assert_eq!(required, u64::MAX),
        _ => panic!("expected a full disk"),
    }
}

#[test]
fn chunks_never_pass_the_end() {
    assert_eq!(next_chunk_len(10, 3), 7);
    assert_eq!(next_chunk_len(5 * TRANSFER_CHUNK_BYTES as u64, 0), TRANSFER_CHUNK_BYTES);
}

#[test]
fn sources_must_stay_unchanged_and_complete_files_are_kept() {
    let a = SourceFingerprint { file_size: 5, modified: Some(FileTime { seconds: 10, nanos: 1 }) };
    let b = SourceFingerprint { file_size: 5, modified: Some(FileTime { seconds: 10, nanos: 2 }) };
    assert!(a.still_matches(&a));
    assert!(!a.still_matches(&b));
    let m = manifest("x.bin", "abc");
    assert!(already_received(true, true, Some("abc"), &m));
    assert!(!already_received(false, true, Some("abc"), &m));
    assert!(!already_received(true, true, None, &m));
    let t = complete_target("/r/x.bin".to_owned(), 9);
    assert!(t.already_complete);
    assert_eq!((t.temp_path.as_str(), t.resume_offset), ("/r/x.bin", 9));
}

fn chunked_manifest(file_size: u64, digests: Vec<String>) -> FileManifest {
    FileManifest {
        id: Uuid::from_bytes([9; 16]),
        file_name: "big.bin".to_owned(),
        file_size,
        blake3: "a".repeat(64),
        modified_unix_ms: None,
        chunk_blake3: digests,
    }
}

#[test]
fn resume_keeps_only_the_verified_prefix() {
    let chunk = TRANSFER_CHUNK_BYTES as u64;
    let expected = vec!["1".repeat(64), "2".repeat(64), "3".repeat(64)];
    let m = chunked_manifest(2 * chunk + 5, expected.clone());
    // The second chunk of the partial file differs: only the first is kept.
    let partial = vec!["1".repeat(64), "f".repeat(64)];
    assert_eq!(resume_offset(&m, 2 * chunk + 3, &partial), (chunk, false));
    // Both whole chunks match: resume after them, dropping the torn tail.
    assert_eq!(resume_offset(&m, 2 * chunk + 3, &expected[..2].to_vec()), (2 * chunk, false));
    // A partial file shorter than one chunk holds no verified chunk.
    assert_eq!(resume_offset(&m, chunk - 1, &Vec::new()), (0, false));
    // The first chunk already differs.
    assert_eq!(resume_offset(&m, chunk, &vec!["0".repeat(64)]), (0, false));
    // A complete partial file with all digests right resumes at the end.
    assert_eq!(resume_offset(&m, 2 * chunk + 5, &expected), (2 * chunk + 5, false));
    assert_eq!(resume_offset(&m, 2 * chunk + 6, &expected), (0, true));
}

#[test]
fn chunks_are_checked_against_their_digests() {
    let m = chunked_manifest(3, vec![content_hash(b"abc")]);
    assert!(check_received_chunk(&m, 0, b"abc").is_ok());
    for (start, bytes) in [(0_u64, &b"abd"[..]), (0, &b"ab"[..]), (1, &b"bc"[..])] {
        match check_received_chunk(&m, start, bytes) {
            Err(AppError::File(msg)) => assert_eq!(msg, "received chunk does not match the manifest"),
            _ => panic!("expected a chunk mismatch"),
        }
    }
    let legacy = chunked_manifest(3, Vec::new());
    assert!(check_received_chunk(&legacy, 0, b"zzz").is_ok());
}

#[test]
fn manifests_announce_one_digest_per_chunk() {
    let chunk = TRANSFER_CHUNK_BYTES as u64;
    assert!(validate_manifest(&chunked_manifest(chunk + 1, vec!["a".repeat(64), "b".repeat(64)])).is_ok());
    for digests in [vec!["a".repeat(64)], vec!["a".repeat(64), "b".repeat(64), "c".repeat(64)], vec![
        "a".repeat(64),
        "xyz".to_owned(),
    ]] {
        match validate_manifest(&chunked_manifest(chunk + 1, digests)) {
            Err(AppError::File(msg)) => assert_eq!(msg, "invalid chunk digests in manifest"),
            _ => panic!("expected the chunk digest error"),
        }
    }
}
