//! The synchronization decisions of the desktop runtime: which clipboard
//! changes are recorded, sent and applied, which devices receive files,
//! how settings change, and what the status line says.

use vstd::prelude::*;
use vstd::seq_lib::lemma_seq_contains_after_push;
use crate::error::AppError;
use crate::hlc::{ts_lt, HlcTimestamp};
use crate::ids::{bytes_lt, Uuid};
use crate::model::{
    ClipboardCapability, ClipboardDirection, ClipboardEvent, ClipboardItemView,
    DeviceConnectionState, DeviceView, HistoryRetention, SettingsPatch, SettingsView, SyncState,
    SyncStatusView,
};
use crate::text::{chars_of, trim_text, trimmed, unicode_lowercase};
use crate::transport::MAX_CLIPBOARD_BYTES;

verus! {

/// Clipboard history items kept at most.
pub const DEFAULT_HISTORY_LIMIT: usize = 500;

/// Items per page of clipboard history.
pub const CLIPBOARD_PAGE_SIZE: usize = 100;

/// Items per page of file history.
pub const FILE_HISTORY_PAGE_SIZE: usize = 100;

/// The port the transport listens on unless it is taken.
pub const DEFAULT_QUIC_PORT: u16 = 53317;

/// Clipboard event identifiers remembered before the memory is cleared.
pub const SEEN_EVENTS_LIMIT: usize = 10000;

/// Whether a new local clipboard text repeats the latest history item.
pub fn is_consecutive_clipboard_duplicate(
    latest_content_hash: Option<&str>,
    candidate_content_hash: &str,
) -> (duplicate: bool)
    ensures
        duplicate == (latest_content_hash matches Some(h) && h@ == candidate_content_hash@),
{
    match latest_content_hash {
        Some(latest) => {
            let a = String::from_str(latest);
            let b = String::from_str(candidate_content_hash);
            a == b
        },
        None => false,
    }
}

/// Refuses clipboard text that is empty or larger than the limit.
pub fn check_clipboard_text(content: &str) -> (r: Result<(), AppError>)
    ensures
        content@.len() == 0 ==> (r matches Err(AppError::InvalidInput(m)) && m@
            == "clipboard text is empty"@),
        content@.len() > 0 && content.len() > MAX_CLIPBOARD_BYTES ==> (r matches Err(
            AppError::InvalidInput(m),
        ) && m@ == "clipboard text exceeds the 1 MiB limit"@),
        content@.len() > 0 && content.len() <= MAX_CLIPBOARD_BYTES ==> r is Ok,
{
    if content.is_empty() {
        return Err(AppError::InvalidInput(String::from_str("clipboard text is empty")));
    }
    if content.len() > MAX_CLIPBOARD_BYTES {
        return Err(AppError::InvalidInput(String::from_str("clipboard text exceeds the 1 MiB limit")));
    }
    Ok(())
}

/// The order in which clipboard changes take effect: by timestamp, then by
/// originating device, then by event.
#[derive(Debug, Clone, Copy, PartialEq, Eq, PartialOrd, Ord)]
pub struct ClipboardOrderKey {
    pub hlc: HlcTimestamp,
    pub origin_device_id: Uuid,
    pub event_id: Uuid,
}

/// `a` comes strictly before `b` in clipboard order.
pub open spec fn order_lt(a: ClipboardOrderKey, b: ClipboardOrderKey) -> bool {
    ||| ts_lt(a.hlc, b.hlc)
    ||| a.hlc == b.hlc && bytes_lt(a.origin_device_id.bytes@, b.origin_device_id.bytes@)
    ||| a.hlc == b.hlc && a.origin_device_id.bytes@ == b.origin_device_id.bytes@ && bytes_lt(
        a.event_id.bytes@,
        b.event_id.bytes@,
    )
}

/// Clipboard order extends clock order: a change whose clock reading is
/// later (a later millisecond, or the same millisecond and a higher logical
/// counter) comes after the other, whatever device and event it is from.
pub proof fn lemma_clipboard_order_follows_clock(a: ClipboardOrderKey, b: ClipboardOrderKey)
    requires
        a.hlc.physical_ms < b.hlc.physical_ms || (a.hlc.physical_ms == b.hlc.physical_ms
            && a.hlc.logical < b.hlc.logical),
    ensures
        order_lt(a, b),
        !order_lt(b, a),
{
}

impl ClipboardOrderKey {
    /// The order key of a history item.
    pub fn from_item(item: &ClipboardItemView) -> (k: ClipboardOrderKey)
        ensures
            k.hlc == item.hlc,
            k.origin_device_id == item.source_device_id,
            k.event_id == item.id,
    {
        ClipboardOrderKey { hlc: item.hlc, origin_device_id: item.source_device_id, event_id: item.id }
    }

    /// Whether `self` comes strictly after `other`.
    pub fn follows(&self, other: &ClipboardOrderKey) -> (b: bool)
        ensures
            b == order_lt(*other, *self),
    {
        if other.hlc.physical_ms != self.hlc.physical_ms {
            return other.hlc.physical_ms < self.hlc.physical_ms;
        }
        if other.hlc.logical != self.hlc.logical {
            return other.hlc.logical < self.hlc.logical;
        }
        if !other.origin_device_id.same(&self.origin_device_id) {
            proof {
                lemma_bytes_lt_excludes_equal(other.origin_device_id.bytes@, self.origin_device_id.bytes@);
            }
            return other.origin_device_id.precedes(&self.origin_device_id);
        }
        other.event_id.precedes(&self.event_id)
    }
}

proof fn lemma_bytes_lt_excludes_equal(a: Seq<u8>, b: Seq<u8>)
    ensures
        bytes_lt(a, b) ==> a != b,
{
    if bytes_lt(a, b) {
        let i = choose|i: int|
            0 <= i < a.len() && i < b.len() && a[i] < b[i] && a.subrange(0, i) == b.subrange(0, i);
        assert(a[i] != b[i]);
    }
}

/// The latest clipboard change applied so far moves forward: a received
/// change is applied only when it comes after it, and then becomes it.
pub fn should_apply_clipboard(last: &mut Option<ClipboardOrderKey>, key: ClipboardOrderKey) -> (apply: bool)
    ensures
        apply == (*old(last) matches Some(current) ==> order_lt(current, key)),
        apply ==> *final(last) == Some(key),
        !apply ==> *final(last) == *old(last),
{
    let apply = match last {
        Some(current) => key.follows(current),
        None => true,
    };
    if apply {
        *last = Some(key);
    }
    apply
}

/// Clipboard event identifiers already handled, so that a change that
/// arrives twice is applied once. The memory is cleared when it grows past
/// its limit.
#[derive(Debug, Clone)]
pub struct SeenEvents {
    ids: Vec<Uuid>,
}

impl SeenEvents {
    pub closed spec fn ids(&self) -> Seq<Uuid> {
        self.ids@
    }

    /// No identifier is remembered twice, and the memory stays within its limit.
    pub closed spec fn wf(&self) -> bool {
        &&& self.ids@.len() <= SEEN_EVENTS_LIMIT
        &&& forall|i: int, j: int| 0 <= i < j < self.ids@.len() ==> self.ids@[i] != self.ids@[j]
    }

    pub fn new() -> (s: SeenEvents)
        ensures
            s.wf(),
            s.ids().len() == 0,
    {
        SeenEvents { ids: Vec::new() }
    }

    /// Records `id`; tells whether it was new.
    pub fn insert(&mut self, id: Uuid) -> (new: bool)
        requires
            old(self).wf(),
        ensures
            final(self).wf(),
            seen_insert(old(self).ids(), id, new, final(self).ids()),
            new && old(self).ids().len() < SEEN_EVENTS_LIMIT ==> final(self).ids() == old(self).ids().push(id),
            new && old(self).ids().len() == SEEN_EVENTS_LIMIT ==> final(self).ids() == seq![id],
    {
        let mut i: usize = 0;
        while i < self.ids.len()
            invariant
                i <= self.ids@.len(),
                self.wf(),
                *self == *old(self),
                forall|j: int| 0 <= j < i ==> self.ids@[j] != id,
            decreases self.ids@.len() - i,
        {
            if self.ids[i].same(&id) {
                proof {
                    assert(self.ids@[i as int] == id);
                }
                return false;
            }
            i = i + 1;
        }
        if self.ids.len() >= SEEN_EVENTS_LIMIT {
            self.ids = Vec::new();
        }
        self.ids.push(id);
        proof {
            assert(self.ids@[self.ids@.len() - 1] == id);
        }
        true
    }
}

/// What recording `id` in the memory of handled events does: it tells
/// whether the identifier was new, and remembers it.
pub open spec fn seen_insert(before: Seq<Uuid>, id: Uuid, new: bool, after: Seq<Uuid>) -> bool {
    &&& new == !before.contains(id)
    &&& after.contains(id)
    &&& !new ==> after == before
}

/// An event that arrives a second time right after the first is not new.
pub proof fn lemma_seen_event_reported_once(
    s0: Seq<Uuid>,
    id: Uuid,
    first: bool,
    s1: Seq<Uuid>,
    second: bool,
    s2: Seq<Uuid>,
)
    requires
        seen_insert(s0, id, first, s1),
        seen_insert(s1, id, second, s2),
    ensures
        !second,
        s2 == s1,
{
}

/// Refuses a clipboard event from another sync space.
pub fn check_remote_space(event_space_id: &Uuid, local_space_id: &Uuid) -> (r: Result<(), AppError>)
    ensures
        event_space_id == local_space_id ==> r is Ok,
        event_space_id != local_space_id ==> (r matches Err(AppError::Network(m)) && m@
            == "received clipboard event for another sync space"@),
{
    if event_space_id.same(local_space_id) {
        Ok(())
    } else {
        Err(AppError::Network(String::from_str("received clipboard event for another sync space")))
    }
}

/// The history item of a clipboard event received from a trusted device.
pub fn received_item(event: ClipboardEvent, peer_name: String) -> (item: ClipboardItemView)
    ensures
        item.id == event.id,
        item.content == event.content,
        item.content_hash == event.content_hash,
        item.source_device_id == event.origin_device_id,
        item.source_device_name == peer_name,
        item.direction == ClipboardDirection::Received,
        item.created_at_ms == event.created_at_ms,
        item.hlc == event.hlc,
        !item.pinned,
{
    ClipboardItemView {
        id: event.id,
        content: event.content,
        content_hash: event.content_hash,
        source_device_id: event.origin_device_id,
        source_device_name: peer_name,
        direction: ClipboardDirection::Received,
        created_at_ms: event.created_at_ms,
        hlc: event.hlc,
        pinned: false,
    }
}

/// The history item a clipboard change observed on this device becomes:
/// its text and digest, this device as its source, the time it was observed
/// and the clock value issued for it; not pinned.
pub fn local_clipboard_item(
    id: Uuid,
    content: String,
    content_hash: String,
    device_id: Uuid,
    device_name: String,
    observed_at_ms: i64,
    hlc: HlcTimestamp,
) -> (item: ClipboardItemView)
    ensures
        item.id == id,
        item.content@ == content@,
        item.content_hash@ == content_hash@,
        item.source_device_id == device_id,
        item.source_device_name@ == device_name@,
        item.direction == ClipboardDirection::Local,
        item.created_at_ms == observed_at_ms,
        item.hlc == hlc,
        !item.pinned,
{
    ClipboardItemView {
        id,
        content,
        content_hash,
        source_device_id: device_id,
        source_device_name: device_name,
        direction: ClipboardDirection::Local,
        created_at_ms: observed_at_ms,
        hlc,
        pinned: false,
    }
}

/// What becomes of a new local clipboard item: whether it is kept in
/// history (unless history is disabled), and whether it is sent to the
/// other devices (when clipboard sync is on and sync is not paused).
pub fn local_clipboard_actions(retention: HistoryRetention, sync_enabled: bool, paused: bool) -> (r: (
    bool,
    bool,
))
    ensures
        r.0 == (retention != HistoryRetention::Disabled),
        r.1 == (sync_enabled && !paused),
{
    let keep = match retention {
        HistoryRetention::Disabled => false,
        _ => true,
    };
    (keep, sync_enabled && !paused)
}

/// What recording a local clipboard change comes to: nothing new when it
/// repeats the latest history item (that item stands), else a new item,
/// kept in history and sent to the other devices as the settings say.
#[derive(Debug, Clone, Copy, PartialEq, Eq, Structural)]
pub enum LocalClipboardPlan {
    KeepLatest,
    Record { keep_in_history: bool, send_to_devices: bool },
}

/// Decides what a local clipboard change comes to, from the digest of the
/// latest history item, the digest of the new text and the settings.
pub fn local_clipboard_plan(
    latest_content_hash: Option<&str>,
    candidate_content_hash: &str,
    retention: HistoryRetention,
    sync_enabled: bool,
    paused: bool,
) -> (plan: LocalClipboardPlan)
    ensures
        (latest_content_hash matches Some(h) && h@ == candidate_content_hash@) ==> plan
            == LocalClipboardPlan::KeepLatest,
        !(latest_content_hash matches Some(h) && h@ == candidate_content_hash@) ==> plan
            == (LocalClipboardPlan::Record {
            keep_in_history: retention != HistoryRetention::Disabled,
            send_to_devices: sync_enabled && !paused,
        }),
{
    if is_consecutive_clipboard_duplicate(latest_content_hash, candidate_content_hash) {
        return LocalClipboardPlan::KeepLatest;
    }
    let (keep_in_history, send_to_devices) = local_clipboard_actions(retention, sync_enabled, paused);
    LocalClipboardPlan::Record { keep_in_history, send_to_devices }
}

/// The event that carries a local history item to the other devices.
pub fn event_for_item(item: &ClipboardItemView, space_id: Uuid, origin_sequence: u64) -> (event: ClipboardEvent)
    ensures
        event.id == item.id,
        event.space_id == space_id,
        event.origin_device_id == item.source_device_id,
        event.origin_sequence == origin_sequence,
        event.created_at_ms == item.created_at_ms,
        event.hlc == item.hlc,
        event.content@ == item.content@,
        event.content_hash@ == item.content_hash@,
{
    ClipboardEvent {
        id: item.id,
        space_id,
        origin_device_id: item.source_device_id,
        origin_sequence,
        created_at_ms: item.created_at_ms,
        hlc: item.hlc,
        content: String::from_str(item.content.as_str()),
        content_hash: String::from_str(item.content_hash.as_str()),
    }
}

/// Which devices receive a file: never this device or a paused one; the
/// requested devices when some are requested, else every online device.
pub open spec fn is_transfer_target(d: DeviceView, requested: Option<Seq<Uuid>>) -> bool {
    &&& !d.is_current
    &&& !d.paused
    &&& match requested {
        Some(ids) => if ids.len() > 0 {
            ids.contains(d.id)
        } else {
            d.connection_state == DeviceConnectionState::Online
        },
        None => d.connection_state == DeviceConnectionState::Online,
    }
}

pub open spec fn requested_ids(requested: Option<&Vec<Uuid>>) -> Option<Seq<Uuid>> {
    match requested {
        Some(ids) => Some(ids@),
        None => None,
    }
}

fn contains_uuid(ids: &Vec<Uuid>, id: &Uuid) -> (found: bool)
    ensures
        found == ids@.contains(*id),
{
    let mut i: usize = 0;
    while i < ids.len()
        invariant
            i <= ids@.len(),
            forall|j: int| 0 <= j < i ==> ids@[j] != *id,
        decreases ids@.len() - i,
    {
        if ids[i].same(id) {
            proof {
                assert(ids@[i as int] == *id);
            }
            return true;
        }
        i = i + 1;
    }
    false
}

/// The requested devices, each once, in the order of their first request.
pub fn distinct_ids(ids: &Vec<Uuid>) -> (distinct: Vec<Uuid>)
    ensures
        forall|id: Uuid| distinct@.contains(id) <==> ids@.contains(id),
        forall|a: int, b: int| 0 <= a < b < distinct@.len() ==> distinct@[a] != distinct@[b],
{
    let mut distinct: Vec<Uuid> = Vec::new();
    let mut i: usize = 0;
    while i < ids.len()
        invariant
            i <= ids@.len(),
            forall|id: Uuid| distinct@.contains(id) <==> ids@.subrange(0, i as int).contains(id),
            forall|a: int, b: int| 0 <= a < b < distinct@.len() ==> distinct@[a] != distinct@[b],
        decreases ids@.len() - i,
    {
        let id = ids[i];
        let ghost before = distinct@;
        let found = contains_uuid(&distinct, &id);
        if !found {
            distinct.push(id);
        }
        proof {
            let seen = ids@.subrange(0, i as int);
            assert(ids@.subrange(0, i + 1) =~= seen.push(id));
            assert forall|x: Uuid| distinct@.contains(x) <==> ids@.subrange(0, i + 1).contains(x) by {
                lemma_seq_contains_after_push(seen, id, x);
                lemma_seq_contains_after_push(before, id, x);
            }
        }
        i = i + 1;
    }
    assert(ids@.subrange(0, ids@.len() as int) =~= ids@);
    distinct
}

/// The devices a file goes to, in the order given.
pub fn select_transfer_targets(devices: Vec<DeviceView>, requested: Option<&Vec<Uuid>>) -> (targets: Vec<
    DeviceView,
>)
    ensures
        targets@ == devices@.filter(|d: DeviceView| is_transfer_target(d, requested_ids(requested))),
{
    let ghost given = devices@;
    let ghost pred = |d: DeviceView| is_transfer_target(d, requested_ids(requested));
    let mut rest = devices;
    let mut targets: Vec<DeviceView> = Vec::new();
    let ghost mut taken: int = 0;
    assert(given.subrange(0, 0) =~= Seq::<DeviceView>::empty());
    assert(given.subrange(0, given.len() as int) =~= given);
    while rest.len() > 0
        invariant
            0 <= taken <= given.len(),
            rest@ == given.subrange(taken, given.len() as int),
            targets@ == given.subrange(0, taken).filter(pred),
            pred == (|d: DeviceView| is_transfer_target(d, requested_ids(requested))),
        decreases rest@.len(),
    {
        let device = rest.remove(0);
        let keep = !device.is_current && !device.paused && match requested {
            Some(ids) => if ids.len() > 0 {
                contains_uuid(ids, &device.id)
            } else {
                device.connection_state == DeviceConnectionState::Online
            },
            None => device.connection_state == DeviceConnectionState::Online,
        };
        proof {
            assert(device == given[taken]);
            let pre = given.subrange(0, taken);
            assert(given.subrange(0, taken + 1) =~= pre.push(device));
            pre.lemma_filter_push(device, pred);
            assert(keep == pred(device));
        }
        if keep {
            targets.push(device);
        }
        proof {
            taken = taken + 1;
            assert(rest@ =~= given.subrange(taken, given.len() as int));
        }
    }
    proof {
        assert(given.subrange(0, taken) =~= given);
    }
    targets
}

/// The devices a local clipboard change is sent to: every trusted device
/// that is not paused.
pub fn clipboard_delivery_targets(devices: &Vec<DeviceView>) -> (ids: Vec<Uuid>)
    ensures
        ids@ == devices@.filter(|d: DeviceView| !d.paused).map_values(|d: DeviceView| d.id),
{
    let ghost pred = |d: DeviceView| !d.paused;
    let mut ids: Vec<Uuid> = Vec::new();
    let mut i: usize = 0;
    while i < devices.len()
        invariant
            i <= devices@.len(),
            pred == (|d: DeviceView| !d.paused),
            ids@ == devices@.subrange(0, i as int).filter(pred).map_values(|d: DeviceView| d.id),
        decreases devices@.len() - i,
    {
        let device = &devices[i];
        proof {
            let pre = devices@.subrange(0, i as int);
            assert(devices@.subrange(0, i + 1) =~= pre.push(*device));
            pre.lemma_filter_push(*device, pred);
        }
        if !device.paused {
            ids.push(device.id);
            proof {
                let pre = devices@.subrange(0, i as int);
                assert(pre.push(*device).filter(pred) == pre.filter(pred).push(*device));
                assert(ids@ =~= pre.filter(pred).push(*device).map_values(|d: DeviceView| d.id));
            }
        }
        i = i + 1;
    }
    assert(devices@.subrange(0, devices@.len() as int) =~= devices@);
    ids
}

/// Turns notifications on; tells whether they were off.
pub fn enforce_notifications_enabled(settings: &mut SettingsView) -> (changed: bool)
    ensures
        changed == !old(settings).notifications_enabled,
        final(settings).notifications_enabled,
        *final(settings) == (SettingsView { notifications_enabled: true, ..*old(settings) }),
{
    let changed = !settings.notifications_enabled;
    settings.notifications_enabled = true;
    changed
}

/// A device name as entered: trimmed, it must hold 1 to 64 characters.
pub open spec fn valid_device_name(name: Seq<char>) -> bool {
    0 < trimmed(name).len() <= 64
}

/// The device name to store for what the user entered.
pub fn validated_device_name(name: &str) -> (r: Result<String, AppError>)
    ensures
        valid_device_name(name@) ==> (r matches Ok(n) && n@ == trimmed(name@)),
        !valid_device_name(name@) ==> (r matches Err(AppError::InvalidInput(m)) && m@
            == "device name must contain 1 to 64 characters"@),
{
    let trimmed_name = trim_text(name);
    let count = chars_of(trimmed_name.as_str()).len();
    if count == 0 || count > 64 {
        return Err(AppError::InvalidInput(String::from_str("device name must contain 1 to 64 characters")));
    }
    Ok(trimmed_name)
}

/// Applies a settings change: the device name (trimmed, 1 to 64
/// characters), the receive directory (already checked by the caller), the
/// clipboard sync switch, the retention, start at login and tray; the other
/// fields of the change are ignored, and notifications are always on.
pub fn apply_settings_patch(
    settings: &mut SettingsView,
    patch: &SettingsPatch,
    receive_directory: Option<String>,
) -> (r: Result<(), AppError>)
    ensures
        patch.device_name matches Some(n) && !valid_device_name(n@) ==> (r matches Err(
            AppError::InvalidInput(m),
        ) && m@ == "device name must contain 1 to 64 characters"@ && *final(settings) == *old(settings)),
        r is Ok <==> (patch.device_name matches Some(n) ==> valid_device_name(n@)),
        r is Ok ==> {
            &&& (match patch.device_name {
                Some(n) => final(settings).device_name@ == trimmed(n@),
                None => final(settings).device_name@ == old(settings).device_name@,
            })
            &&& (match receive_directory {
                Some(d) => final(settings).receive_directory == d,
                None => final(settings).receive_directory@ == old(settings).receive_directory@,
            })
            &&& final(settings).clipboard_sync_enabled == (match patch.clipboard_sync_enabled {
                Some(b) => b,
                None => old(settings).clipboard_sync_enabled,
            })
            &&& final(settings).history_retention == (match patch.history_retention {
                Some(h) => h,
                None => old(settings).history_retention,
            })
            &&& final(settings).launch_at_startup == (match patch.launch_at_startup {
                Some(b) => b,
                None => old(settings).launch_at_startup,
            })
            &&& final(settings).keep_in_tray == (match patch.keep_in_tray {
                Some(b) => b,
                None => old(settings).keep_in_tray,
            })
            &&& final(settings).notifications_enabled
            &&& final(settings).delete_sync_enabled == old(settings).delete_sync_enabled
            &&& final(settings).favorite_sync_enabled == old(settings).favorite_sync_enabled
            &&& final(settings).automatic_updates_enabled == old(settings).automatic_updates_enabled
            &&& final(settings).language == old(settings).language
        },
{
    let name = match &patch.device_name {
        Some(n) => Some(validated_device_name(n.as_str())?),
        None => None,
    };
    let next = SettingsView {
        device_name: match name {
            Some(n) => n,
            None => String::from_str(settings.device_name.as_str()),
        },
        receive_directory: match receive_directory {
            Some(d) => d,
            None => String::from_str(settings.receive_directory.as_str()),
        },
        clipboard_sync_enabled: match patch.clipboard_sync_enabled {
            Some(b) => b,
            None => settings.clipboard_sync_enabled,
        },
        delete_sync_enabled: settings.delete_sync_enabled,
        favorite_sync_enabled: settings.favorite_sync_enabled,
        history_retention: match patch.history_retention {
            Some(h) => h,
            None => settings.history_retention,
        },
        launch_at_startup: match patch.launch_at_startup {
            Some(b) => b,
            None => settings.launch_at_startup,
        },
        keep_in_tray: match patch.keep_in_tray {
            Some(b) => b,
            None => settings.keep_in_tray,
        },
        notifications_enabled: true,
        automatic_updates_enabled: settings.automatic_updates_enabled,
        language: settings.language,
    };
    *settings = next;
    Ok(())
}

/// Online devices, this one included.
pub open spec fn online_count(devices: Seq<DeviceView>) -> nat {
    devices.filter(|d: DeviceView| d.connection_state == DeviceConnectionState::Online).len()
}

/// Other devices that are offline.
pub open spec fn offline_count(devices: Seq<DeviceView>) -> nat {
    devices.filter(
        |d: DeviceView| !d.is_current && d.connection_state == DeviceConnectionState::Offline,
    ).len()
}

/// The status line: paused, limited when history cannot be stored
/// persistently, else healthy; with the device counts.
pub fn sync_status(
    paused: bool,
    persistent_storage: bool,
    devices: &Vec<DeviceView>,
    clipboard_capability: ClipboardCapability,
) -> (status: SyncStatusView)
    ensures
        paused ==> status.state == SyncState::Paused && status.label@ == "同步已暂停"@,
        !paused && !persistent_storage ==> status.state == SyncState::Limited && status.label@
            == "安全存储不可用 · 历史仅保留到退出"@,
        !paused && persistent_storage ==> status.state == SyncState::Healthy && status.label@
            == "同步正常"@,
        status.online_count == online_count(devices@),
        status.offline_count == offline_count(devices@),
        status.clipboard_capability == clipboard_capability,
{
    let ghost online = |d: DeviceView| d.connection_state == DeviceConnectionState::Online;
    let ghost offline = |d: DeviceView| !d.is_current && d.connection_state == DeviceConnectionState::Offline;
    let mut online_n: usize = 0;
    let mut offline_n: usize = 0;
    let mut i: usize = 0;
    while i < devices.len()
        invariant
            i <= devices@.len(),
            online == (|d: DeviceView| d.connection_state == DeviceConnectionState::Online),
            offline == (|d: DeviceView| !d.is_current && d.connection_state == DeviceConnectionState::Offline),
            online_n == devices@.subrange(0, i as int).filter(online).len(),
            offline_n == devices@.subrange(0, i as int).filter(offline).len(),
            online_n <= i,
            offline_n <= i,
        decreases devices@.len() - i,
    {
        let device = &devices[i];
        proof {
            let pre = devices@.subrange(0, i as int);
            assert(devices@.subrange(0, i + 1) =~= pre.push(*device));
            pre.lemma_filter_push(*device, online);
            pre.lemma_filter_push(*device, offline);
        }
        if device.connection_state == DeviceConnectionState::Online {
            online_n = online_n + 1;
        }
        if !device.is_current && device.connection_state == DeviceConnectionState::Offline {
            offline_n = offline_n + 1;
        }
        i = i + 1;
    }
    assert(devices@.subrange(0, devices@.len() as int) =~= devices@);
    let (state, label) = if paused {
        (SyncState::Paused, String::from_str("同步已暂停"))
    } else if !persistent_storage {
        (SyncState::Limited, String::from_str("安全存储不可用 · 历史仅保留到退出"))
    } else {
        (SyncState::Healthy, String::from_str("同步正常"))
    };
    SyncStatusView { state, label, online_count: online_n, offline_count: offline_n, clipboard_capability }
}

/// Of two devices, the one whose identifier sorts first opens the connection.
pub fn should_initiate_connection(local_device_id: &Uuid, peer_id: &Uuid) -> (initiate: bool)
    ensures
        initiate == bytes_lt(local_device_id.bytes@, peer_id.bytes@),
{
    local_device_id.precedes(peer_id)
}

/// A trusted device found in another sync space is reported once, until it
/// is paired again; other reconnection errors are not reported.
pub fn should_report_reconnect_error(reported: &mut Vec<Uuid>, peer_id: Uuid, error: &AppError) -> (report: bool)
    ensures
        report == (error is SyncSpaceMismatch && !old(reported)@.contains(peer_id)),
        report ==> final(reported)@ == old(reported)@.push(peer_id),
        !report ==> final(reported)@ == old(reported)@,
{
    match error {
        AppError::SyncSpaceMismatch => {
            if contains_uuid(reported, &peer_id) {
                false
            } else {
                reported.push(peer_id);
                true
            }
        },
        _ => false,
    }
}

/// Refuses an action on this device that only applies to other devices.
pub fn check_other_device(id: &Uuid, current_device_id: &Uuid, message: &str) -> (r: Result<(), AppError>)
    ensures
        id == current_device_id ==> (r matches Err(AppError::InvalidInput(m)) && m@ == message@),
        id != current_device_id ==> r is Ok,
{
    if id.same(current_device_id) {
        Err(AppError::InvalidInput(String::from_str(message)))
    } else {
        Ok(())
    }
}

/// A discovered device is dialled when it is trusted, not connected yet,
/// speaks this protocol version, and this device is the one that opens
/// connections between the two.
pub fn should_connect_discovered(
    trusted: bool,
    online: bool,
    local_device_id: &Uuid,
    peer_id: &Uuid,
    protocol_version: u16,
) -> (connect: bool)
    ensures
        connect == (trusted && !online && bytes_lt(local_device_id.bytes@, peer_id.bytes@)
            && protocol_version == crate::transport::PROTOCOL_VERSION),
{
    trusted && !online && should_initiate_connection(local_device_id, peer_id) && protocol_version
        == crate::transport::PROTOCOL_VERSION
}

/// A stored device as the device list shows it: online with its current
/// address (the discovered one, else the stored one) and seen now, or
/// offline.
pub fn device_presence(device: DeviceView, online: bool, nearby_address: Option<String>, now_ms: i64) -> (d:
    DeviceView)
    ensures
        d.id == device.id,
        d.name == device.name,
        d.platform == device.platform,
        d.is_current == device.is_current,
        d.last_sync_at_ms == device.last_sync_at_ms,
        d.paused == device.paused,
        online ==> d.connection_state == DeviceConnectionState::Online && d.last_seen_at_ms == Some(now_ms)
            && d.address == (match nearby_address {
            Some(a) => Some(a),
            None => device.address,
        }),
        !online ==> d.connection_state == DeviceConnectionState::Offline && d.address == device.address
            && d.last_seen_at_ms == device.last_seen_at_ms,
{
    let mut d = device;
    if online {
        d.connection_state = DeviceConnectionState::Online;
        d.address = match nearby_address {
            Some(a) => Some(a),
            None => d.address,
        };
        d.last_seen_at_ms = Some(now_ms);
    } else {
        d.connection_state = DeviceConnectionState::Offline;
    }
    d
}

/// A connection change of a stored device: online with its address and
/// seen now, or offline with the rest unchanged.
pub fn connection_update(device: DeviceView, online: bool, address: Option<String>, now_ms: i64) -> (d:
    DeviceView)
    ensures
        d.id == device.id,
        d.name == device.name,
        d.paused == device.paused,
        d.is_current == device.is_current,
        d.last_sync_at_ms == device.last_sync_at_ms,
        online ==> d.connection_state == DeviceConnectionState::Online && d.address == address
            && d.last_seen_at_ms == Some(now_ms),
        !online ==> d.connection_state == DeviceConnectionState::Offline && d.address == device.address
            && d.last_seen_at_ms == device.last_seen_at_ms,
{
    let mut d = device;
    if online {
        d.connection_state = DeviceConnectionState::Online;
        d.address = address;
        d.last_seen_at_ms = Some(now_ms);
    } else {
        d.connection_state = DeviceConnectionState::Offline;
    }
    d
}

/// Text order (as for `String`): by the first differing character, a
/// prefix first.
pub open spec fn text_lt(a: Seq<char>, b: Seq<char>) -> bool
    decreases a.len(),
{
    if b.len() == 0 {
        false
    } else if a.len() == 0 {
        true
    } else if a[0] != b[0] {
        a[0] < b[0]
    } else {
        text_lt(a.drop_first(), b.drop_first())
    }
}

proof fn lemma_text_lt_transitive(a: Seq<char>, b: Seq<char>, c: Seq<char>)
    requires
        text_lt(a, b),
        text_lt(b, c),
    ensures
        text_lt(a, c),
    decreases a.len(),
{
    if a.len() > 0 && b.len() > 0 && c.len() > 0 && a[0] == b[0] && b[0] == c[0] {
        lemma_text_lt_transitive(a.drop_first(), b.drop_first(), c.drop_first());
    }
}

proof fn lemma_text_lt_asymmetric(a: Seq<char>, b: Seq<char>)
    ensures
        !(text_lt(a, b) && text_lt(b, a)),
    decreases a.len(),
{
    if a.len() > 0 && b.len() > 0 && a[0] == b[0] {
        lemma_text_lt_asymmetric(a.drop_first(), b.drop_first());
    }
}

proof fn lemma_text_lt_total(a: Seq<char>, b: Seq<char>)
    ensures
        text_lt(a, b) || text_lt(b, a) || a == b,
    decreases a.len(),
{
    if a.len() == 0 && b.len() == 0 {
        assert(a =~= b);
    } else if a.len() > 0 && b.len() > 0 && a[0] == b[0] {
        lemma_text_lt_total(a.drop_first(), b.drop_first());
        if a.drop_first() == b.drop_first() {
            assert(a.drop_first().len() == b.drop_first().len());
            assert(a =~= b) by {
                assert forall|i: int| 0 <= i < a.len() implies a[i] == b[i] by {
                    if i > 0 {
                        assert(a[i] == a.drop_first()[i - 1]);
                        assert(b[i] == b.drop_first()[i - 1]);
                    }
                }
            }
        }
    }
}

fn text_less(a: &Vec<char>, b: &Vec<char>) -> (lt: bool)
    ensures
        lt == text_lt(a@, b@),
{
    let mut i: usize = 0;
    assert(a@.subrange(0, a@.len() as int) =~= a@);
    assert(b@.subrange(0, b@.len() as int) =~= b@);
    while i < a.len() && i < b.len()
        invariant
            i <= a@.len(),
            i <= b@.len(),
            text_lt(a@, b@) == text_lt(a@.subrange(i as int, a@.len() as int), b@.subrange(i as int, b@.len() as int)),
        decreases a@.len() - i,
    {
        let ghost sa = a@.subrange(i as int, a@.len() as int);
        let ghost sb = b@.subrange(i as int, b@.len() as int);
        if a[i] != b[i] {
            assert(sa[0] == a@[i as int] && sb[0] == b@[i as int]);
            return a[i] < b[i];
        }
        assert(sa.drop_first() =~= a@.subrange(i + 1, a@.len() as int));
        assert(sb.drop_first() =~= b@.subrange(i + 1, b@.len() as int));
        i = i + 1;
    }
    i < b.len()
}

/// Where a device stands in the device list: this device, then online
/// devices, then the rest.
pub open spec fn device_rank(d: DeviceView) -> int {
    if d.is_current {
        0
    } else if d.connection_state == DeviceConnectionState::Online {
        1
    } else {
        2
    }
}

/// `a` is listed strictly before `b`: by rank, then by lowercase name.
pub open spec fn listed_before(a: DeviceView, b: DeviceView) -> bool {
    ||| device_rank(a) < device_rank(b)
    ||| device_rank(a) == device_rank(b) && text_lt(unicode_lowercase(a.name@), unicode_lowercase(b.name@))
}

/// Neither device is listed before the other.
pub open spec fn listed_together(a: DeviceView, b: DeviceView) -> bool {
    !listed_before(a, b) && !listed_before(b, a)
}

proof fn lemma_listed_order(x: DeviceView, y: DeviceView, z: DeviceView)
    ensures
        listed_before(x, y) && listed_before(y, z) ==> listed_before(x, z),
        !(listed_before(x, y) && listed_before(y, x)),
        listed_together(x, z) && listed_before(x, y) ==> listed_before(z, y),
{
    let lx = unicode_lowercase(x.name@);
    let ly = unicode_lowercase(y.name@);
    let lz = unicode_lowercase(z.name@);
    if listed_before(x, y) && listed_before(y, z) && device_rank(x) == device_rank(y) && device_rank(y) == device_rank(z) {
        lemma_text_lt_transitive(lx, ly, lz);
    }
    lemma_text_lt_asymmetric(lx, ly);
    lemma_text_lt_total(lx, lz);
}

/// The order of the device list, as positions in `devices`: this device
/// first, then online devices, then the rest, each by lowercase name, and
/// devices that tie in their given order.
pub fn device_order(devices: &Vec<DeviceView>) -> (order: Vec<usize>)
    ensures
        order@.len() == devices@.len(),
        forall|k: int| 0 <= k < order@.len() ==> #[trigger] order@[k] < devices@.len(),
        forall|a: int, b: int| 0 <= a < b < order@.len() ==> order@[a] != order@[b],
        forall|a: int, b: int|
            0 <= a < b < order@.len() ==> !listed_before(
                devices@[order@[b] as int],
                devices@[order@[a] as int],
            ),
        forall|a: int, b: int|
            0 <= a < b < order@.len() && listed_together(devices@[order@[a] as int], devices@[order@[b] as int])
                ==> order@[a] < order@[b],
{
    let n = devices.len();
    let mut names: Vec<Vec<char>> = Vec::new();
    let mut i: usize = 0;
    while i < n
        invariant
            i <= n,
            n == devices@.len(),
            names@.len() == i,
            forall|k: int| 0 <= k < i ==> #[trigger] names@[k]@ == unicode_lowercase(devices@[k].name@),
        decreases n - i,
    {
        let lower = crate::text::to_lowercase(devices[i].name.as_str());
        names.push(chars_of(lower.as_str()));
        i = i + 1;
    }
    let mut order: Vec<usize> = Vec::new();
    let mut i: usize = 0;
    while i < n
        invariant
            i <= n,
            n == devices@.len(),
            names@.len() == n,
            forall|k: int| 0 <= k < n ==> #[trigger] names@[k]@ == unicode_lowercase(devices@[k].name@),
            order@.len() == i,
            forall|k: int| 0 <= k < order@.len() ==> #[trigger] order@[k] < i,
            forall|a: int, b: int| 0 <= a < b < order@.len() ==> order@[a] != order@[b],
            forall|a: int, b: int|
                0 <= a < b < order@.len() ==> !listed_before(
                    devices@[order@[b] as int],
                    devices@[order@[a] as int],
                ),
            forall|a: int, b: int|
                0 <= a < b < order@.len() && listed_together(devices@[order@[a] as int], devices@[order@[b] as int])
                    ==> order@[a] < order@[b],
        decreases n - i,
    {
        let d = &devices[i];
        let rank_i: u8 = if d.is_current { 0 } else if d.connection_state == DeviceConnectionState::Online { 1 } else { 2 };
        let mut p: usize = 0;
        let mut found = false;
        while !found && p < order.len()
            invariant
                p <= order@.len(),
                order@.len() == i,
                i < n,
                n == devices@.len(),
                names@.len() == n,
                forall|k: int| 0 <= k < n ==> #[trigger] names@[k]@ == unicode_lowercase(devices@[k].name@),
                forall|k: int| 0 <= k < order@.len() ==> #[trigger] order@[k] < i,
                rank_i == device_rank(devices@[i as int]),
                forall|k: int| 0 <= k < p ==> !listed_before(devices@[i as int], #[trigger] devices@[order@[k] as int]),
                found ==> p < order@.len() && listed_before(devices@[i as int], devices@[order@[p as int] as int]),
            decreases 2 * (order@.len() - p) + (if found { 0int } else { 1int }),
        {
            let other = &devices[order[p]];
            let rank_o: u8 = if other.is_current { 0 } else if other.connection_state == DeviceConnectionState::Online { 1 } else { 2 };
            let before = rank_i < rank_o || (rank_i == rank_o && text_less(&names[i], &names[order[p]]));
            if before {
                found = true;
            } else {
                p = p + 1;
            }
        }
        let ghost old_order = order@;
        let ghost di = devices@[i as int];
        order.insert(p, i);
        proof {
            assert(order@ == old_order.insert(p as int, i));
            assert forall|k: int| 0 <= k < order@.len() implies #[trigger] order@[k] < i + 1 by {
                if k < p {
                    assert(order@[k] == old_order[k]);
                } else if k > p {
                    assert(order@[k] == old_order[k - 1]);
                }
            }
            assert forall|a: int, b: int| 0 <= a < b < order@.len() implies order@[a] != order@[b] by {
                if b < p {
                    assert(order@[a] == old_order[a] && order@[b] == old_order[b]);
                } else if b == p {
                    assert(order@[a] == old_order[a]);
                } else if a < p {
                    assert(order@[a] == old_order[a] && order@[b] == old_order[b - 1]);
                } else if a == p {
                    assert(order@[b] == old_order[b - 1]);
                } else {
                    assert(order@[a] == old_order[a - 1] && order@[b] == old_order[b - 1]);
                }
            }
            assert forall|a: int, b: int| 0 <= a < b < order@.len() implies !listed_before(
                devices@[order@[b] as int],
                devices@[order@[a] as int],
            ) && (listed_together(devices@[order@[a] as int], devices@[order@[b] as int]) ==> order@[a]
                < order@[b]) by {
                let xa = devices@[order@[a] as int];
                let xb = devices@[order@[b] as int];
                if b < p {
                    assert(order@[a] == old_order[a] && order@[b] == old_order[b]);
                } else if b == p {
                    assert(order@[a] == old_order[a]);
                    assert(!listed_before(di, xa));
                    lemma_listed_order(xb, xa, xa);
                } else if a < p {
                    assert(order@[a] == old_order[a] && order@[b] == old_order[b - 1]);
                } else if a == p {
                    assert(order@[b] == old_order[b - 1]);
                    let xp = devices@[old_order[p as int] as int];
                    assert(listed_before(di, xp));
                    if b - 1 > p {
                        assert(!listed_before(xb, xp));
                    }
                    lemma_listed_order(xb, di, xp);
                    lemma_listed_order(di, xp, xb);
                } else {
                    assert(order@[a] == old_order[a - 1] && order@[b] == old_order[b - 1]);
                }
            }
        }
        i = i + 1;
    }
    order
}

} // verus!
