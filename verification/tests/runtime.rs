use synchalo::platform::collect_local_paths;
use synchalo::sync::{local_clipboard_actions, local_clipboard_item, local_clipboard_plan, LocalClipboardPlan};
use synchalo::i18n::{apple_language_tags, env_language_tags};
use synchalo::error::AppError;
use synchalo::hlc::HlcTimestamp;
use synchalo::history::{
    check_sqlite_version, escape_like_pattern, filter_clipboard, normalized_query, page_window,
    paginate_clipboard, retention_cutoff, transfer_query, DAY_MS,
};
use synchalo::i18n::{
    detect_system_locale, locale_from_tag, text, transfer_notification, update_notification, Locale, NativeText,
};
use synchalo::ids::Uuid;
use synchalo::model::{
    ClipboardCapability, ClipboardDirection, ClipboardItemView, DeviceConnectionState, DevicePlatform,
    DeviceView, HistoryRetention, LanguagePreference, SettingsPatch, SettingsView, SyncState,
    TransferHistoryFilter, TransferState,
};
use synchalo::platform::{
    clipboard_capability, default_device_name, is_activation_click, parse_uri_list, uri_list_entries,
    MouseButton, MouseButtonState,
};
use synchalo::sync::{
    apply_settings_patch, check_clipboard_text, distinct_ids, enforce_notifications_enabled,
    is_consecutive_clipboard_duplicate, select_transfer_targets, should_apply_clipboard,
    should_report_reconnect_error, sync_status, validated_device_name, ClipboardOrderKey, SeenEvents,
};
use synchalo::transfer_state::{
    check_enqueue, eta_seconds, mark_cancelled, mark_completed, mark_failed, queued_status, retry_status,
    TargetStatus, TransferStatus,
};

fn settings() -> SettingsView {
    SettingsView {
        device_name: "Mac".to_owned(),
        receive_directory: "/tmp".to_owned(),
        clipboard_sync_enabled: true,
        delete_sync_enabled: false,
        favorite_sync_enabled: false,
        history_retention: HistoryRetention::SevenDays,
        launch_at_startup: false,
        keep_in_tray: true,
        notifications_enabled: false,
        automatic_updates_enabled: true,
        language: LanguagePreference::System,
    }
}

fn test_device(id: u8, connection_state: DeviceConnectionState, is_current: bool) -> DeviceView {
    DeviceView {
        id: Uuid::from_bytes([id; 16]),
        name: "Test device".to_owned(),
        platform: DevicePlatform::Linux,
        connection_state,
        is_current,
        address: None,
        last_seen_at_ms: None,
        last_sync_at_ms: None,
        paused: false,
    }
}

#[test]
fn supported_language_tags_are_resolved() {
    assert_eq!(locale_from_tag("en-US"), Some(Locale::En));
    assert_eq!(locale_from_tag("zh-Hans-CN"), Some(Locale::ZhCn));
    assert_eq!(locale_from_tag("zh_Hant_TW"), Some(Locale::ZhTw));
    assert_eq!(locale_from_tag("ja-JP"), Some(Locale::Ja));
    assert_eq!(locale_from_tag("ko-KR"), Some(Locale::Ko));
    assert_eq!(locale_from_tag("fr-FR"), None);
}

#[test]
fn explicit_preferences_localize_native_text() {
    assert_eq!(text(LanguagePreference::En, NativeText::TrayQuit, Locale::Ja), "Quit");
    assert_eq!(text(LanguagePreference::ZhTw, NativeText::SelectFiles, Locale::En), "選擇要同步的檔案");
    assert_eq!(text(LanguagePreference::Ja, NativeText::TrayOpen, Locale::En), "SyncHalo を開く");
    assert_eq!(text(LanguagePreference::Ko, NativeText::TraySendFile, Locale::En), "파일 보내기…");
}

#[test]
fn system_preference_follows_the_first_supported_tag() {
    assert_eq!(detect_system_locale(&vec!["fr_FR".to_owned(), "zh-HK".to_owned(), "en".to_owned()]), Locale::ZhTw);
    assert_eq!(detect_system_locale(&vec![]), Locale::En);
    assert_eq!(text(LanguagePreference::System, NativeText::TrayQuit, Locale::ZhCn), "退出");
    let (title, body) = update_notification(LanguagePreference::En, true, "1.2.3", Locale::En);
    assert_eq!(title, "SyncHalo update downloaded");
    assert_eq!(body, "SyncHalo 1.2.3 has been verified. Open the app to install and restart.");
    let (title, body) = transfer_notification(LanguagePreference::ZhCn, true, "a.txt", Locale::En);
    assert_eq!(title, "SyncHalo 文件同步完成");
    assert_eq!(body, "a.txt 已保存到接收目录");
}

#[test]
fn consecutive_clipboard_content_is_deduplicated() {
    assert!(is_consecutive_clipboard_duplicate(Some("same"), "same"));
    assert!(!is_consecutive_clipboard_duplicate(Some("older"), "newer"));
    assert!(!is_consecutive_clipboard_duplicate(None, "first"));
}

#[test]
fn clipboard_text_must_be_within_limits() {
    assert!(matches!(check_clipboard_text(""), Err(AppError::InvalidInput(_))));
    assert!(check_clipboard_text("x").is_ok());
    match check_clipboard_text(&"x".repeat(1024 * 1024 + 1)) {
        Err(AppError::InvalidInput(m)) => assert_eq!(m, "clipboard text exceeds the 1 MiB limit"),
        _ => panic!("expected too large"),
    }
}

#[test]
fn notifications_are_always_enabled() {
    let mut settings = settings();
    assert!(enforce_notifications_enabled(&mut settings));
    assert!(settings.notifications_enabled);
    assert!(!enforce_notifications_enabled(&mut settings));
}

#[test]
fn unselected_file_targets_resolve_to_every_online_device() {
    let current = test_device(1, DeviceConnectionState::Online, true);
    let online = test_device(2, DeviceConnectionState::Online, false);
    let offline = test_device(3, DeviceConnectionState::Offline, false);
    let targets = select_transfer_targets(vec![current, online.clone(), offline], Some(&Vec::new()));
    assert_eq!(targets.len(), 1);
    assert_eq!(targets[0].id, online.id);
}

#[test]
fn selected_file_targets_preserve_the_explicit_device_set() {
    let online = test_device(2, DeviceConnectionState::Online, false);
    let offline = test_device(3, DeviceConnectionState::Offline, false);
    let requested = vec![online.id, offline.id];
    let targets = select_transfer_targets(vec![online.clone(), offline.clone()], Some(&requested));
    assert_eq!(targets.len(), 2);
    assert!(targets.iter().any(|device| device.id == online.id));
    assert!(targets.iter().any(|device| device.id == offline.id));
}

fn key(ms: i64, logical: u32, origin: u8, event: u8) -> ClipboardOrderKey {
    ClipboardOrderKey {
        hlc: HlcTimestamp { physical_ms: ms, logical },
        origin_device_id: Uuid::from_bytes([origin; 16]),
        event_id: Uuid::from_bytes([event; 16]),
    }
}

#[test]
fn remote_clipboard_changes_apply_in_clock_order() {
    let mut last = None;
    assert!(should_apply_clipboard(&mut last, key(10, 0, 1, 1)));
    assert!(!should_apply_clipboard(&mut last, key(9, 5, 9, 9)));
    assert!(should_apply_clipboard(&mut last, key(10, 0, 2, 0)));
    assert!(!should_apply_clipboard(&mut last, key(10, 0, 2, 0)));
    assert!(should_apply_clipboard(&mut last, key(10, 0, 2, 1)));
    assert_eq!(last, Some(key(10, 0, 2, 1)));
}

#[test]
fn repeated_clipboard_events_are_handled_once() {
    let mut seen = SeenEvents::new();
    let id = Uuid::from_bytes([4; 16]);
    assert!(seen.insert(id));
    assert!(!seen.insert(id));
    assert!(seen.insert(Uuid::from_bytes([5; 16])));
}

#[test]
fn space_mismatches_are_reported_once_per_device() {
    let mut reported = Vec::new();
    let peer = Uuid::from_bytes([6; 16]);
    assert!(should_report_reconnect_error(&mut reported, peer, &AppError::SyncSpaceMismatch));
    assert!(!should_report_reconnect_error(&mut reported, peer, &AppError::SyncSpaceMismatch));
    assert!(!should_report_reconnect_error(&mut reported, Uuid::nil(), &AppError::Crypto));
}

#[test]
fn settings_changes_are_validated_and_applied() {
    assert_eq!(validated_device_name("  Studio  ").unwrap(), "Studio");
    assert!(matches!(validated_device_name("   "), Err(AppError::InvalidInput(_))));
    assert!(matches!(validated_device_name(&"x".repeat(65)), Err(AppError::InvalidInput(_))));
    assert_eq!(validated_device_name(&"界".repeat(64)).unwrap(), "界".repeat(64));
    let mut s = settings();
    let patch = SettingsPatch {
        device_name: Some(" Desk ".to_owned()),
        history_retention: Some(HistoryRetention::Forever),
        delete_sync_enabled: Some(true),
        ..SettingsPatch::default()
    };
    apply_settings_patch(&mut s, &patch, Some("/data".to_owned())).unwrap();
    assert_eq!(s.device_name, "Desk");
    assert_eq!(s.receive_directory, "/data");
    assert_eq!(s.history_retention, HistoryRetention::Forever);
    assert!(!s.delete_sync_enabled);
    assert!(s.notifications_enabled);
    let bad = SettingsPatch { device_name: Some("".to_owned()), ..SettingsPatch::default() };
    assert!(apply_settings_patch(&mut s, &bad, None).is_err());
    assert_eq!(s.device_name, "Desk");
}

#[test]
fn status_line_counts_devices() {
    let devices = vec![
        test_device(1, DeviceConnectionState::Online, true),
        test_device(2, DeviceConnectionState::Offline, false),
        test_device(3, DeviceConnectionState::Online, false),
    ];
    let status = sync_status(false, true, &devices, ClipboardCapability::Full);
    assert_eq!(status.state, SyncState::Healthy);
    assert_eq!(status.label, "同步正常");
    assert_eq!((status.online_count, status.offline_count), (2, 1));
    assert_eq!(sync_status(true, true, &devices, ClipboardCapability::Full).state, SyncState::Paused);
    assert_eq!(sync_status(false, false, &devices, ClipboardCapability::Full).state, SyncState::Limited);
}

fn history_item(index: u8, content: &str) -> ClipboardItemView {
    ClipboardItemView {
        id: Uuid::from_bytes([index; 16]),
        content: content.to_owned(),
        content_hash: String::new(),
        source_device_id: Uuid::nil(),
        source_device_name: "Mac".to_owned(),
        direction: ClipboardDirection::Local,
        created_at_ms: 0,
        hlc: HlcTimestamp { physical_ms: 0, logical: 0 },
        pinned: false,
    }
}

#[test]
fn clipboard_history_uses_fixed_pages_and_search() {
    let w = page_window(205, 3, 100);
    assert_eq!((w.page, w.page_size, w.total_pages, w.offset), (3, 100, 3, 200));
    let w = page_window(205, 99, 100);
    assert_eq!((w.page, w.offset), (3, 200));
    let w = page_window(0, 0, 0);
    assert_eq!((w.page, w.page_size, w.total_pages, w.offset), (1, 1, 1, 0));
    assert_eq!(page_window(10, 1, 5000).page_size, 2000);
    let items: Vec<_> = (0..5).map(|i| history_item(i, &format!("pagination item {i}"))).collect();
    let page = paginate_clipboard(items.clone(), 2, 2);
    assert_eq!(page.items.len(), 2);
    assert_eq!(page.items[0].content, "pagination item 2");
    assert_eq!((page.total_items, page.total_pages), (5, 3));
    let query = normalized_query(Some("  ITEM 4 ")).unwrap();
    assert_eq!(query, "item 4");
    let found = filter_clipboard(items, &query);
    assert_eq!(found.len(), 1);
    assert_eq!(found[0].content, "pagination item 4");
    assert_eq!(normalized_query(Some("   ")), None);
}

#[test]
fn file_history_filters_become_sql_conditions() {
    assert_eq!(escape_like_pattern("50%_a\\b"), "50\\%\\_a\\\\b");
    let q = transfer_query(Some("zip"), true, TransferHistoryFilter::Failed);
    assert_eq!(
        q.where_clause,
        " WHERE LOWER(CAST(json_extract(state_json, '$.fileName') AS TEXT)) LIKE ? ESCAPE '\\' AND COALESCE(json_extract(state_json, '$.pinned'), 0) = 1 AND json_extract(state_json, '$.state') IN ('failed', 'waitingForDevice')"
    );
    assert_eq!(q.search_pattern.as_deref(), Some("%zip%"));
    let q = transfer_query(None, false, TransferHistoryFilter::All);
    assert_eq!(q.where_clause, "");
    assert_eq!(q.search_pattern, None);
}

#[test]
fn retention_and_store_version_rules() {
    let now = 1_700_000_000_000;
    assert_eq!(retention_cutoff(HistoryRetention::Disabled, now), Some(now));
    assert_eq!(retention_cutoff(HistoryRetention::SevenDays, now), Some(now - 7 * DAY_MS));
    assert_eq!(retention_cutoff(HistoryRetention::Forever, now), None);
    assert!(check_sqlite_version("3.51.3").is_ok());
    assert!(check_sqlite_version("3.52.0").is_ok());
    assert!(check_sqlite_version("4").is_ok());
    match check_sqlite_version("3.45.1") {
        Err(AppError::Storage(m)) => assert_eq!(m, "SQLite 3.45.1 is below the required 3.51.3"),
        _ => panic!("expected an old version"),
    }
    assert!(check_sqlite_version("garbage").is_err());
}

#[test]
fn transfers_follow_their_targets() {
    let a = Uuid::from_bytes([1; 16]);
    let b = Uuid::from_bytes([2; 16]);
    let mut status = queued_status(&vec![a, b], &vec![true, false]);
    assert_eq!(status.state, TransferState::Queued);
    assert_eq!(status.error.as_deref(), Some("部分目标设备当前离线，文件未发送"));
    assert_eq!(status.targets[1].state, TransferState::Failed);
    mark_completed(&mut status, &a, false);
    assert_eq!(status.state, TransferState::Failed);
    assert_eq!(status.error.as_deref(), Some("目标设备当前离线，文件未发送"));
    let launch = retry_status(&mut status, &vec![a, b]).unwrap();
    assert_eq!(launch, vec![a, b]);
    assert_eq!(status.state, TransferState::Queued);
    assert_eq!(status.error, None);
    mark_completed(&mut status, &a, false);
    assert_eq!(status.state, TransferState::Transferring);
    mark_completed(&mut status, &b, false);
    assert_eq!(status.state, TransferState::Completed);
    mark_failed(&mut status, &b, "late".to_owned(), false);
    assert_eq!(status.state, TransferState::Failed);
    mark_cancelled(&mut status);
    assert_eq!(status.state, TransferState::Cancelled);
    assert_eq!(status.targets[0].state, TransferState::Completed);
    assert_eq!(status.targets[1].state, TransferState::Cancelled);
    let mut empty = TransferStatus {
        direction: synchalo::model::TransferDirection::Sending,
        state: TransferState::Failed,
        error: None,
        targets: Vec::<TargetStatus>::new(),
    };
    assert!(matches!(retry_status(&mut empty, &vec![]), Err(AppError::NoSyncDevices)));
    assert_eq!(eta_seconds(100, 40, 20), Some(3));
    assert_eq!(eta_seconds(100, 40, 0), None);
    assert!(matches!(check_enqueue(101, None, 1), Err(AppError::InvalidInput(_))));
    assert!(matches!(check_enqueue(1, Some(2), 1), Err(AppError::NoSyncDevices)));
    assert!(matches!(check_enqueue(1, None, 0), Err(AppError::NoSyncDevices)));
    assert_eq!(check_enqueue(0, None, 0).unwrap(), false);
    assert_eq!(check_enqueue(3, Some(2), 2).unwrap(), true);
}

#[test]
fn only_a_completed_left_click_activates_the_window() {
    assert!(is_activation_click(MouseButton::Left, MouseButtonState::Up));
    assert!(!is_activation_click(MouseButton::Left, MouseButtonState::Down));
    assert!(!is_activation_click(MouseButton::Right, MouseButtonState::Up));
}

#[test]
fn device_name_and_clipboard_support_have_safe_fallbacks() {
    assert_eq!(default_device_name(Some("studio".to_owned()), DevicePlatform::Macos), "studio");
    assert_eq!(default_device_name(Some("  ".to_owned()), DevicePlatform::Macos), "我的 Mac");
    assert_eq!(default_device_name(None, DevicePlatform::Unknown), "我的设备");
    assert_eq!(clipboard_capability(DevicePlatform::Linux, "Wayland"), ClipboardCapability::AppActiveOnly);
    assert_eq!(clipboard_capability(DevicePlatform::Linux, "x11"), ClipboardCapability::Full);
    assert_eq!(clipboard_capability(DevicePlatform::Unknown, ""), ClipboardCapability::Unsupported);
}

#[test]
fn clipboard_uri_lists_name_local_files() {
    let contents = "copy\r\n# comment\r\nfile:///tmp/a%20b.txt\r\n\r\nhttps://example.com/x\n";
    assert_eq!(uri_list_entries(contents), vec!["file:///tmp/a%20b.txt".to_owned(), "https://example.com/x".to_owned()]);
    assert_eq!(parse_uri_list(contents).unwrap(), vec!["/tmp/a b.txt".to_owned()]);
    match parse_uri_list("cut\n") {
        Err(AppError::InvalidInput(m)) => assert_eq!(m, "the clipboard URI list contains no local files"),
        _ => panic!("expected no files"),
    }
}

#[test]
fn device_list_puts_this_device_first_then_online_devices_by_name() {
    let mut a = test_device(1, DeviceConnectionState::Offline, false);
    a.name = "alpha".to_owned();
    let mut b = test_device(2, DeviceConnectionState::Online, false);
    b.name = "Zulu".to_owned();
    let mut c = test_device(3, DeviceConnectionState::Online, false);
    c.name = "bravo".to_owned();
    let mut me = test_device(4, DeviceConnectionState::Online, true);
    me.name = "zz".to_owned();
    let mut d = test_device(5, DeviceConnectionState::Online, false);
    d.name = "BRAVO".to_owned();
    let devices = vec![a, b, c, me, d];
    assert_eq!(synchalo::sync::device_order(&devices), vec![3, 2, 4, 1, 0]);
}

#[test]
fn system_language_tags_are_read_from_the_platform() {
    let output = "(\n    \"zh-Hant-TW\",\n    \"en-US\"\n)\n";
    assert_eq!(apple_language_tags(output), vec!["zh-Hant-TW".to_owned(), "en-US".to_owned()]);
    let values = vec!["zh_TW:en".to_owned(), "ja_JP.UTF-8".to_owned()];
    assert_eq!(env_language_tags(&values), vec!["zh_TW".to_owned(), "en".to_owned(), "ja_JP".to_owned()]);
}

#[test]
fn requested_devices_are_counted_once() {
    let a = Uuid::from_bytes([1; 16]);
    let b = Uuid::from_bytes([2; 16]);
    let ids = distinct_ids(&vec![b, a, b, a, b]);
    assert_eq!(ids.len(), 2);
    assert!(ids[0].same(&b));
    assert!(ids[1].same(&a));
    assert!(distinct_ids(&Vec::new()).is_empty());
}

#[test]
fn clipboard_history_uses_fixed_pages_and_favorite_filtering() {
    let mut items = Vec::new();
    for index in 0..205_u32 {
        let content = format!("pagination item {index}");
        let mut id = [0_u8; 16];
        id[12..].copy_from_slice(&index.to_be_bytes());
        items.push(ClipboardItemView {
            id: Uuid::from_bytes(id),
            content_hash: String::new(),
            content,
            source_device_id: Uuid::nil(),
            source_device_name: "Mac".to_owned(),
            direction: ClipboardDirection::Local,
            created_at_ms: 1_700_000_000_000 + index as i64,
            hlc: HlcTimestamp { physical_ms: 1_700_000_000_000 + index as i64, logical: 0 },
            pinned: index % 50 == 0,
        });
    }
    items.reverse();

    let first = paginate_clipboard(items.clone(), 1, 100);
    assert_eq!(first.items.len(), 100);
    assert_eq!(first.total_items, 205);
    assert_eq!(first.total_pages, 3);

    let last = paginate_clipboard(items.clone(), 99, 100);
    assert_eq!(last.page, 3);
    assert_eq!(last.items.len(), 5);

    let pinned: Vec<ClipboardItemView> = items.iter().filter(|item| item.pinned).cloned().collect();
    let favorites = paginate_clipboard(pinned, 1, 100);
    assert_eq!(favorites.total_items, 5);
    assert!(favorites.items.iter().all(|item| item.pinned));

    let query = normalized_query(Some("ITEM 204")).unwrap();
    let search = paginate_clipboard(filter_clipboard(items, &query), 1, 100);
    assert_eq!(search.total_items, 1);
    assert_eq!(search.items[0].content, "pagination item 204");
}

#[test]
fn uri_list_paths_keep_entry_order() {
    let resolved = vec![None, Some("/b".to_owned()), None, Some("/a".to_owned())];
    assert_eq!(collect_local_paths(resolved).unwrap(), vec!["/b".to_owned(), "/a".to_owned()]);
    match collect_local_paths(vec![None, None]) {
        Err(AppError::InvalidInput(m)) => assert_eq!(m, "the clipboard URI list contains no local files"),
        _ => panic!("expected the no-local-files error"),
    }
    assert!(collect_local_paths(Vec::new()).is_err());
}

#[test]
fn local_clipboard_items_come_from_this_device() {
    let hlc = HlcTimestamp { physical_ms: 5, logical: 2 };
    let item = local_clipboard_item(
        Uuid::from_bytes([4; 16]),
        "hello".to_owned(),
        "h".repeat(64),
        Uuid::from_bytes([5; 16]),
        "Mac".to_owned(),
        5,
        hlc,
    );
    assert_eq!(item.content, "hello");
    assert_eq!(item.source_device_name, "Mac");
    assert_eq!(item.direction, ClipboardDirection::Local);
    assert_eq!(item.created_at_ms, 5);
    assert_eq!(item.hlc, hlc);
    assert!(!item.pinned);
    assert_eq!(local_clipboard_actions(HistoryRetention::Disabled, true, false), (false, true));
    assert_eq!(local_clipboard_actions(HistoryRetention::SevenDays, true, true), (true, false));
    assert_eq!(local_clipboard_actions(HistoryRetention::Forever, false, false), (true, false));
}

#[test]
fn repeated_local_clipboard_text_keeps_the_latest_item() {
    let h = "a".repeat(64);
    assert_eq!(
        local_clipboard_plan(Some(h.as_str()), &h, HistoryRetention::Forever, true, false),
        LocalClipboardPlan::KeepLatest
    );
    assert_eq!(
        local_clipboard_plan(Some("b"), &h, HistoryRetention::Disabled, true, false),
        LocalClipboardPlan::Record { keep_in_history: false, send_to_devices: true }
    );
    assert_eq!(
        local_clipboard_plan(None, &h, HistoryRetention::OneDay, true, true),
        LocalClipboardPlan::Record { keep_in_history: true, send_to_devices: false }
    );
}
