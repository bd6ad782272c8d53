use synchalo::error::{AppError, ErrorCode, UserFacingError, NO_SYNC_DEVICES_MESSAGE};
use synchalo::hlc::{HlcClock, HlcTimestamp};
use synchalo::ids::Uuid;
use synchalo::records::parse_identity;
use synchalo::primitives::content_hash;
use synchalo::text::{i64_to_decimal, parse_u32, trim_text, u64_to_decimal};

#[test]
fn no_sync_devices_has_one_stable_user_message() {
    let error = UserFacingError::from(AppError::NoSyncDevices);
    assert_eq!(error.code, ErrorCode::NoSyncDevices);
    assert_eq!(error.message, NO_SYNC_DEVICES_MESSAGE);
    assert!(error.recoverable);
}

#[test]
fn tick_is_monotonic_when_wall_clock_moves_backwards() {
    let mut clock = HlcClock::default();
    let first = clock.tick(100);
    let second = clock.tick(90);

    assert!(second > first);
    assert_eq!(second.physical_ms, 100);
    assert_eq!(second.logical, 1);
}

#[test]
fn merge_orders_future_local_events_after_remote() {
    let mut clock = HlcClock::from_timestamp(HlcTimestamp {
        physical_ms: 100,
        logical: 2,
    });
    let merged = clock.merge(
        HlcTimestamp {
            physical_ms: 100,
            logical: 7,
        },
        95,
    );

    assert_eq!(merged.physical_ms, 100);
    assert_eq!(merged.logical, 8);
    assert!(clock.tick(96) > merged);
}

#[test]
fn merge_takes_a_later_wall_clock_with_a_fresh_counter() {
    let mut clock = HlcClock::from_timestamp(HlcTimestamp { physical_ms: 10, logical: 4 });
    let merged = clock.merge(HlcTimestamp { physical_ms: 20, logical: 9 }, 30);
    assert_eq!(merged, HlcTimestamp { physical_ms: 30, logical: 0 });
    let merged = clock.merge(HlcTimestamp { physical_ms: 40, logical: 3 }, 35);
    assert_eq!(merged, HlcTimestamp { physical_ms: 40, logical: 4 });
}

#[test]
fn logical_counter_saturates_instead_of_wrapping() {
    let mut clock = HlcClock::from_timestamp(HlcTimestamp { physical_ms: 5, logical: u32::MAX });
    let next = clock.tick(5);
    assert_eq!(next, HlcTimestamp { physical_ms: 5, logical: u32::MAX });
}

#[test]
fn every_error_maps_to_a_user_message() {
    let disk = UserFacingError::from(AppError::DiskFull { required: 10, available: 3 });
    assert_eq!(disk.code, ErrorCode::DiskFull);
    assert_eq!(disk.message, "接收目录磁盘空间不足");
    assert_eq!(disk.detail.as_deref(), Some("需要 10 字节，可用 3 字节"));
    let crypto = UserFacingError::from(AppError::Crypto);
    assert_eq!(crypto.code, ErrorCode::Internal);
    assert!(!crypto.recoverable);
    let mismatch = UserFacingError::from(AppError::SyncSpaceMismatch);
    assert_eq!(mismatch.code, ErrorCode::PairingRejected);
    let input = UserFacingError::from(AppError::InvalidInput("bad".to_owned()));
    assert_eq!(input.code, ErrorCode::InvalidInput);
    assert_eq!(AppError::File("x".to_owned()).message(), "file operation failed: x");
}

#[test]
fn identifiers_read_back_from_their_text() {
    let id = Uuid::from_bytes([
        0x12, 0x34, 0x56, 0x78, 0x9a, 0xbc, 0xde, 0xf0, 0x01, 0x23, 0x45, 0x67, 0x89, 0xab, 0xcd, 0xef,
    ]);
    let text = id.to_hyphenated();
    assert_eq!(text, "12345678-9abc-def0-0123-456789abcdef");
    assert_eq!(id.to_simple(), "123456789abcdef00123456789abcdef");
    let parsed = parse_identity(&text, &text, "Mac".to_owned(), 0, 0, 0).unwrap();
    assert!(parsed.device_id.same(&id));
    assert!(parsed.space_id.same(&id));
    assert!(parse_identity("not-a-uuid", &text, "Mac".to_owned(), 0, 0, 0).is_err());
    assert!(Uuid::nil().precedes(&id));
    assert!(!id.precedes(&Uuid::nil()));
}

#[test]
fn content_hash_is_blake3_hex() {
    assert_eq!(
        content_hash(b"abc"),
        "6437b3ac38465133ffb63b75273a8db548c558465d79db03fd359c6cd5bd9d85"
    );
}

#[test]
fn numbers_are_written_and_read_in_decimal() {
    assert_eq!(u64_to_decimal(0), "0");
    assert_eq!(u64_to_decimal(1234567), "1234567");
    assert_eq!(i64_to_decimal(-42), "-42");
    assert_eq!(i64_to_decimal(i64::MIN), "-9223372036854775808");
    assert_eq!(parse_u32("51"), Some(51));
    assert_eq!(parse_u32("+7"), Some(7));
    assert_eq!(parse_u32("4294967296"), None);
    assert_eq!(parse_u32(""), None);
    assert_eq!(parse_u32("3a"), None);
    assert_eq!(trim_text("  \t name \n"), "name");
    assert_eq!(trim_text("\u{3000}全角\u{3000}"), "全角");
}
