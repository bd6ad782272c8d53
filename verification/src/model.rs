//! The values the desktop runtime shows and stores: devices, history items,
//! settings and status.

use vstd::prelude::*;
use crate::hlc::HlcTimestamp;
use crate::ids::Uuid;

verus! {

#[derive(Debug, Clone, Copy, PartialEq, Eq, Structural)]
pub enum Route {
    Clipboard,
    Files,
    Settings,
}

#[derive(Debug, Clone, Copy, PartialEq, Eq, Structural)]
pub enum DevicePlatform {
    Macos,
    Linux,
    Unknown,
}

impl DevicePlatform {
    /// The platform named by an operating-system name such as
    /// `std::env::consts::OS` gives.
    pub fn from_os_name(os: &str) -> (p: DevicePlatform)
        ensures
            os@ == "macos"@ ==> p == DevicePlatform::Macos,
            os@ == "linux"@ ==> p == DevicePlatform::Linux,
            os@ != "macos"@ && os@ != "linux"@ ==> p == DevicePlatform::Unknown,
    {
        proof {
            reveal_strlit("macos");
            reveal_strlit("linux");
            assert("macos"@[0] != "linux"@[0]);
        }
        let macos = String::from_str("macos");
        let linux = String::from_str("linux");
        let given = String::from_str(os);
        if given == macos {
            DevicePlatform::Macos
        } else if given == linux {
            DevicePlatform::Linux
        } else {
            DevicePlatform::Unknown
        }
    }
}

#[derive(Debug, Clone, Copy, PartialEq, Eq, Structural)]
pub enum DeviceConnectionState {
    Online,
    Offline,
    Nearby,
}

#[derive(Debug, Clone, Copy, PartialEq, Eq, Structural)]
pub enum SyncState {
    Healthy,
    Paused,
    Offline,
    Limited,
}

#[derive(Debug, Clone, Copy, PartialEq, Eq, Structural)]
pub enum ClipboardCapability {
    Full,
    AppActiveOnly,
    Manual,
    Unsupported,
}

#[derive(Debug, Clone, Copy, PartialEq, Eq, Structural)]
pub enum ClipboardDirection {
    Local,
    Received,
}

#[derive(Debug, Clone, Copy, PartialEq, Eq, Structural)]
pub enum TransferDirection {
    Sending,
    Receiving,
}

#[derive(Debug, Clone, Copy, PartialEq, Eq, Structural)]
pub enum TransferState {
    Queued,
    Transferring,
    Verifying,
    Completed,
    Failed,
    Cancelled,
}

#[derive(Debug, Clone, Copy, PartialEq, Eq, Structural)]
pub enum TransferHistoryFilter {
    All,
    Sending,
    Receiving,
    Active,
    Failed,
}

#[derive(Debug, Clone, Copy, PartialEq, Eq, Structural)]
pub enum HistoryRetention {
    /// No clipboard history is kept (serialized as "none").
    Disabled,
    OneDay,
    SevenDays,
    ThirtyDays,
    Forever,
}

#[derive(Debug, Clone, Copy, PartialEq, Eq, Structural)]
pub enum HistoryItemKind {
    Clipboard,
    Transfer,
}

/// The interface language the user chose; `System` follows the system's.
#[derive(Debug, Clone, Copy, PartialEq, Eq, Structural)]
pub enum LanguagePreference {
    System,
    En,
    ZhCn,
    ZhTw,
    Ja,
    Ko,
}

impl Default for TransferHistoryFilter {
    fn default() -> (f: Self)
        ensures
            f == TransferHistoryFilter::All,
    {
        TransferHistoryFilter::All
    }
}

impl Default for HistoryRetention {
    fn default() -> (r: Self)
        ensures
            r == HistoryRetention::SevenDays,
    {
        HistoryRetention::SevenDays
    }
}

impl Default for LanguagePreference {
    fn default() -> (l: Self)
        ensures
            l == LanguagePreference::System,
    {
        LanguagePreference::System
    }
}

/// The sync status line of the main window.
#[derive(Debug, Clone)]
pub struct SyncStatusView {
    pub state: SyncState,
    pub label: String,
    pub online_count: usize,
    pub offline_count: usize,
    pub clipboard_capability: ClipboardCapability,
}

/// The user's settings.
#[derive(Debug, Clone)]
pub struct SettingsView {
    pub device_name: String,
    pub receive_directory: String,
    pub clipboard_sync_enabled: bool,
    pub delete_sync_enabled: bool,
    pub favorite_sync_enabled: bool,
    pub history_retention: HistoryRetention,
    pub launch_at_startup: bool,
    pub keep_in_tray: bool,
    pub notifications_enabled: bool,
    pub automatic_updates_enabled: bool,
    pub language: LanguagePreference,
}

/// A change to some settings; `None` leaves a setting as it is.
#[derive(Debug, Clone, Default)]
pub struct SettingsPatch {
    pub device_name: Option<String>,
    pub receive_directory: Option<String>,
    pub clipboard_sync_enabled: Option<bool>,
    pub delete_sync_enabled: Option<bool>,
    pub favorite_sync_enabled: Option<bool>,
    pub history_retention: Option<HistoryRetention>,
    pub launch_at_startup: Option<bool>,
    pub keep_in_tray: Option<bool>,
    pub notifications_enabled: Option<bool>,
    pub automatic_updates_enabled: Option<bool>,
    pub language: Option<LanguagePreference>,
}

/// What this build and desktop session support.
#[derive(Debug, Clone)]
pub struct PlatformCapabilitiesView {
    pub platform: DevicePlatform,
    pub architecture: String,
    pub clipboard: ClipboardCapability,
    pub supports_tray: bool,
    pub supports_autostart: bool,
}

/// A device as the device list shows it; times are Unix milliseconds.
#[derive(Debug, Clone)]
pub struct DeviceView {
    pub id: Uuid,
    pub name: String,
    pub platform: DevicePlatform,
    pub connection_state: DeviceConnectionState,
    pub is_current: bool,
    pub address: Option<String>,
    pub last_seen_at_ms: Option<i64>,
    pub last_sync_at_ms: Option<i64>,
    pub paused: bool,
}

/// One clipboard history entry; `created_at_ms` is Unix milliseconds.
#[derive(Debug, Clone)]
pub struct ClipboardItemView {
    pub id: Uuid,
    pub content: String,
    pub content_hash: String,
    pub source_device_id: Uuid,
    pub source_device_name: String,
    pub direction: ClipboardDirection,
    pub created_at_ms: i64,
    pub hlc: HlcTimestamp,
    pub pinned: bool,
}

/// One page of clipboard history.
#[derive(Debug, Clone)]
pub struct ClipboardHistoryPage {
    pub items: Vec<ClipboardItemView>,
    pub page: usize,
    pub page_size: usize,
    pub total_items: usize,
    pub total_pages: usize,
}

/// A clipboard change as it travels between devices.
#[derive(Debug, Clone)]
pub struct ClipboardEvent {
    pub id: Uuid,
    pub space_id: Uuid,
    pub origin_device_id: Uuid,
    pub origin_sequence: u64,
    pub created_at_ms: i64,
    pub hlc: HlcTimestamp,
    pub content: String,
    pub content_hash: String,
}

/// A pairing code as displayed ("123 456") and when it stops being valid.
#[derive(Debug, Clone)]
pub struct PairingCodeView {
    pub code: String,
    pub expires_at_ms: i64,
}

/// A device that asks to pair, awaiting the user's approval.
#[derive(Debug, Clone)]
pub struct PairingRequestView {
    pub request_id: Uuid,
    pub device_id: Uuid,
    pub device_name: String,
    pub platform: DevicePlatform,
}

/// A change to the history that one device makes and the others follow.
#[derive(Debug, Clone)]
pub enum HistoryMutation {
    Delete { item_kind: HistoryItemKind, item_id: Uuid },
    SetPinned { item_kind: HistoryItemKind, item_id: Uuid, pinned: bool },
    RestoreClipboard { item: ClipboardItemView },
}

/// A history mutation as it travels between devices.
#[derive(Debug, Clone)]
pub struct HistoryMutationEvent {
    pub id: Uuid,
    pub space_id: Uuid,
    pub origin_device_id: Uuid,
    pub mutation: HistoryMutation,
}

} // verus!
