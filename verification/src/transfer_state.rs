//! How a file transfer's state follows the state of its targets: queued,
//! retried, launched, completed, failed and cancelled.

use vstd::prelude::*;
use crate::error::AppError;
use crate::ids::Uuid;
use crate::model::{TransferDirection, TransferState};

verus! {

/// The most files queued at once.
pub const MAX_QUEUED_FILES: usize = 100;

/// The note on a target that was offline when the file was queued.
pub const TARGET_OFFLINE_NOTE: &'static str = "目标设备当前离线，文件未发送";

/// The note on a transfer some of whose targets were offline.
pub const SOME_TARGETS_OFFLINE_NOTE: &'static str = "部分目标设备当前离线，文件未发送";

/// One receiving device of an outgoing file.
#[derive(Debug, Clone)]
pub struct TargetStatus {
    pub device_id: Uuid,
    pub state: TransferState,
    pub error: Option<String>,
}

/// The state of a transfer and of each of its targets.
#[derive(Debug, Clone)]
pub struct TransferStatus {
    pub direction: TransferDirection,
    pub state: TransferState,
    pub error: Option<String>,
    pub targets: Vec<TargetStatus>,
}

pub open spec fn opt_text(o: Option<String>) -> Option<Seq<char>> {
    match o {
        Some(s) => Some(s@),
        None => None,
    }
}

/// Whether files may be queued: not more than the limit, to some devices,
/// and, when devices were requested, to all of them (`requested` is how
/// many distinct devices were requested, `targets` how many qualify).
/// `Ok(false)` means there is nothing to queue.
pub fn check_enqueue(file_count: usize, requested: Option<usize>, targets: usize) -> (r: Result<bool, AppError>)
    ensures
        file_count == 0 ==> r == Ok::<bool, AppError>(false),
        file_count > MAX_QUEUED_FILES ==> (r matches Err(AppError::InvalidInput(m)) && m@
            == "no more than 100 files can be queued at once"@),
        0 < file_count <= MAX_QUEUED_FILES ==> if (requested matches Some(n) && n > 0 && targets != n) || targets
            == 0 {
            r matches Err(AppError::NoSyncDevices)
        } else {
            r == Ok::<bool, AppError>(true)
        },
{
    if file_count == 0 {
        return Ok(false);
    }
    if file_count > MAX_QUEUED_FILES {
        return Err(AppError::InvalidInput(String::from_str("no more than 100 files can be queued at once")));
    }
    if let Some(n) = requested {
        if n > 0 && targets != n {
            return Err(AppError::NoSyncDevices);
        }
    }
    if targets == 0 {
        return Err(AppError::NoSyncDevices);
    }
    Ok(true)
}

/// Some target is online.
pub open spec fn any_online(online: Seq<bool>) -> bool {
    exists|i: int| 0 <= i < online.len() && online[i]
}

/// Some target is offline.
pub open spec fn any_offline(online: Seq<bool>) -> bool {
    exists|i: int| 0 <= i < online.len() && !online[i]
}

/// The status of a newly queued outgoing file: each online target queued,
/// each offline one failed with a note; the transfer queued when some
/// target is online, else failed, with a note when some target is offline.
pub fn queued_status(target_ids: &Vec<Uuid>, online: &Vec<bool>) -> (s: TransferStatus)
    requires
        target_ids@.len() == online@.len(),
    ensures
        s.direction == TransferDirection::Sending,
        s.state == (if any_online(online@) { TransferState::Queued } else { TransferState::Failed }),
        opt_text(s.error) == (if !any_offline(online@) {
            None
        } else if any_online(online@) {
            Some(SOME_TARGETS_OFFLINE_NOTE@)
        } else {
            Some(TARGET_OFFLINE_NOTE@)
        }),
        s.targets@.len() == target_ids@.len(),
        forall|i: int| 0 <= i < s.targets@.len() ==> {
            &&& (#[trigger] s.targets@[i]).device_id == target_ids@[i]
            &&& s.targets@[i].state == (if online@[i] { TransferState::Queued } else { TransferState::Failed })
            &&& opt_text(s.targets@[i].error) == (if online@[i] { None } else { Some(TARGET_OFFLINE_NOTE@) })
        },
{
    let mut targets: Vec<TargetStatus> = Vec::new();
    let mut some_online = false;
    let mut some_offline = false;
    let mut i: usize = 0;
    while i < target_ids.len()
        invariant
            i <= target_ids@.len(),
            target_ids@.len() == online@.len(),
            targets@.len() == i,
            some_online == any_online(online@.subrange(0, i as int)),
            some_offline == any_offline(online@.subrange(0, i as int)),
            forall|k: int| 0 <= k < i ==> {
                &&& (#[trigger] targets@[k]).device_id == target_ids@[k]
                &&& targets@[k].state == (if online@[k] { TransferState::Queued } else { TransferState::Failed })
                &&& opt_text(targets@[k].error) == (if online@[k] { None } else { Some(TARGET_OFFLINE_NOTE@) })
            },
        decreases target_ids@.len() - i,
    {
        let up = online[i];
        targets.push(TargetStatus {
            device_id: target_ids[i],
            state: if up { TransferState::Queued } else { TransferState::Failed },
            error: if up { None } else { Some(String::from_str(TARGET_OFFLINE_NOTE)) },
        });
        proof {
            let pre = online@.subrange(0, i as int);
            let next = online@.subrange(0, i + 1);
            assert(next[i as int] == up);
            if any_online(pre) {
                let k = choose|k: int| 0 <= k < pre.len() && pre[k];
                assert(next[k]);
            }
            if any_offline(pre) {
                let k = choose|k: int| 0 <= k < pre.len() && !pre[k];
                assert(!next[k]);
            }
            if any_online(next) && !up {
                let k = choose|k: int| 0 <= k < next.len() && next[k];
                assert(pre[k]);
            }
            if any_offline(next) && up {
                let k = choose|k: int| 0 <= k < next.len() && !next[k];
                assert(pre[k] == next[k]);
            }
        }
        if up {
            some_online = true;
        } else {
            some_offline = true;
        }
        i = i + 1;
    }
    assert(online@.subrange(0, online@.len() as int) =~= online@);
    let state = if some_online { TransferState::Queued } else { TransferState::Failed };
    let error = if !some_offline {
        None
    } else if some_online {
        Some(String::from_str(SOME_TARGETS_OFFLINE_NOTE))
    } else {
        Some(String::from_str(TARGET_OFFLINE_NOTE))
    };
    TransferStatus { direction: TransferDirection::Sending, state, error, targets }
}

fn contains_id(ids: &Vec<Uuid>, id: &Uuid) -> (found: bool)
    ensures
        found == ids@.contains(*id),
{
    let mut i: usize = 0;
    while i < ids.len()
        invariant
            i <= ids@.len(),
            forall|j: int| 0 <= j < i ==> ids@[j] != *id,
        decreases ids@.len() - i,
    {
        if ids[i].same(id) {
            proof {
                assert(ids@[i as int] == *id);
            }
            return true;
        }
        i = i + 1;
    }
    false
}

/// Retries an outgoing transfer: online targets are queued again and
/// launched (their identifiers are returned), offline ones fail with a
/// note; the transfer is queued when some target is online, else failed.
pub fn retry_status(status: &mut TransferStatus, online_ids: &Vec<Uuid>) -> (r: Result<Vec<Uuid>, AppError>)
    ensures
        old(status).targets@.len() == 0 ==> (r matches Err(AppError::NoSyncDevices) && *final(status)
            == *old(status)),
        old(status).targets@.len() > 0 ==> (r matches Ok(launch) && {
            &&& final(status).targets@.len() == old(status).targets@.len()
            &&& final(status).direction == old(status).direction
            &&& forall|i: int| 0 <= i < final(status).targets@.len() ==> {
                let before = old(status).targets@[i];
                let after = #[trigger] final(status).targets@[i];
                &&& after.device_id == before.device_id
                &&& if online_ids@.contains(before.device_id) {
                    after.state == TransferState::Queued && after.error is None
                } else {
                    after.state == TransferState::Failed && opt_text(after.error) == Some(TARGET_OFFLINE_NOTE@)
                }
            }
            &&& launch@ == old(status).targets@.map_values(|t: TargetStatus| t.device_id).filter(
                |id: Uuid| online_ids@.contains(id),
            )
            &&& if launch@.len() == 0 {
                final(status).state == TransferState::Failed && opt_text(final(status).error) == Some(
                    TARGET_OFFLINE_NOTE@,
                )
            } else {
                &&& final(status).state == TransferState::Queued
                &&& opt_text(final(status).error) == (if exists|i: int|
                    0 <= i < final(status).targets@.len() && final(status).targets@[i].state
                        == TransferState::Failed {
                    Some(SOME_TARGETS_OFFLINE_NOTE@)
                } else {
                    None
                })
            }
        }),
{
    if status.targets.len() == 0 {
        return Err(AppError::NoSyncDevices);
    }
    let ghost before = status.targets@;
    let ghost ids = before.map_values(|t: TargetStatus| t.device_id);
    let ghost pred = |id: Uuid| online_ids@.contains(id);
    let mut rest: Vec<TargetStatus> = Vec::new();
    std::mem::swap(&mut rest, &mut status.targets);
    let mut updated: Vec<TargetStatus> = Vec::new();
    let mut launch: Vec<Uuid> = Vec::new();
    let mut some_failed = false;
    let n = rest.len();
    let mut k: usize = 0;
    while k < n
        invariant
            k <= n,
            n == before.len(),
            ids == before.map_values(|t: TargetStatus| t.device_id),
            pred == (|id: Uuid| online_ids@.contains(id)),
            rest@ == before.subrange(k as int, n as int),
            updated@.len() == k,
            forall|i: int| 0 <= i < k ==> {
                let b = before[i];
                let a = #[trigger] updated@[i];
                &&& a.device_id == b.device_id
                &&& if online_ids@.contains(b.device_id) {
                    a.state == TransferState::Queued && a.error is None
                } else {
                    a.state == TransferState::Failed && opt_text(a.error) == Some(TARGET_OFFLINE_NOTE@)
                }
            },
            launch@ == ids.subrange(0, k as int).filter(pred),
            some_failed == exists|i: int| 0 <= i < k && updated@[i].state == TransferState::Failed,
        decreases n - k,
    {
        let target = rest.remove(0);
        proof {
            assert(target == before[k as int]);
            let pre = ids.subrange(0, k as int);
            assert(ids.subrange(0, k + 1) =~= pre.push(target.device_id));
            pre.lemma_filter_push(target.device_id, pred);
        }
        let up = contains_id(online_ids, &target.device_id);
        let ghost old_updated = updated@;
        if up {
            launch.push(target.device_id);
            updated.push(TargetStatus { device_id: target.device_id, state: TransferState::Queued, error: None });
        } else {
            updated.push(
                TargetStatus {
                    device_id: target.device_id,
                    state: TransferState::Failed,
                    error: Some(String::from_str(TARGET_OFFLINE_NOTE)),
                },
            );
            some_failed = true;
        }
        proof {
            assert forall|i: int| 0 <= i < k implies #[trigger] updated@[i] == old_updated[i] by {}
            if some_failed && up {
                let j = choose|i: int| 0 <= i < k && old_updated[i].state == TransferState::Failed;
                assert(updated@[j].state == TransferState::Failed);
            }
            if !up {
                assert(updated@[k as int].state == TransferState::Failed);
            }
            if !some_failed {
                assert forall|i: int| 0 <= i < k + 1 implies updated@[i].state != TransferState::Failed by {
                    if i < k {
                        assert(updated@[i] == old_updated[i]);
                    }
                }
            }
            assert(rest@ =~= before.subrange(k + 1, n as int));
        }
        k = k + 1;
    }
    proof {
        assert(ids.subrange(0, n as int) =~= ids);
    }
    status.targets = updated;
    if launch.len() == 0 {
        status.state = TransferState::Failed;
        status.error = Some(String::from_str(TARGET_OFFLINE_NOTE));
    } else {
        status.state = TransferState::Queued;
        status.error = if some_failed {
            Some(String::from_str(SOME_TARGETS_OFFLINE_NOTE))
        } else {
            None
        };
    }
    Ok(launch)
}

/// Whether an outgoing transfer may be launched to a target: it is
/// outgoing and neither cancelled nor completed.
pub fn may_launch(status: &TransferStatus) -> (b: bool)
    ensures
        b == (status.direction == TransferDirection::Sending && status.state != TransferState::Cancelled
            && status.state != TransferState::Completed),
{
    status.direction == TransferDirection::Sending && status.state != TransferState::Cancelled
        && status.state != TransferState::Completed
}

/// The index of the target for `device_id`, if there is one.
fn target_index(targets: &Vec<TargetStatus>, device_id: &Uuid) -> (r: Option<usize>)
    ensures
        match r {
            Some(i) => i < targets@.len() && targets@[i as int].device_id == *device_id && forall|j: int|
                0 <= j < i ==> targets@[j].device_id != *device_id,
            None => forall|j: int| 0 <= j < targets@.len() ==> targets@[j].device_id != *device_id,
        },
{
    let mut i: usize = 0;
    while i < targets.len()
        invariant
            i <= targets@.len(),
            forall|j: int| 0 <= j < i ==> targets@[j].device_id != *device_id,
        decreases targets@.len() - i,
    {
        if targets[i].device_id.same(device_id) {
            return Some(i);
        }
        i = i + 1;
    }
    None
}

/// Launches a transfer to a target: the target (if listed) and the
/// transfer are transferring.
pub fn mark_launched(status: &mut TransferStatus, device_id: &Uuid)
    ensures
        final(status).state == TransferState::Transferring,
        final(status).error == old(status).error,
        final(status).direction == old(status).direction,
        final(status).targets@.len() == old(status).targets@.len(),
        forall|i: int| 0 <= i < final(status).targets@.len() ==> {
            let before = old(status).targets@[i];
            let after = #[trigger] final(status).targets@[i];
            &&& after.device_id == before.device_id
            &&& if (forall|j: int| 0 <= j < i ==> old(status).targets@[j].device_id != *device_id)
                && before.device_id == *device_id {
                after.state == TransferState::Transferring && after.error is None
            } else {
                after == before
            }
        },
{
    match target_index(&status.targets, device_id) {
        Some(i) => {
            let ghost before = status.targets@;
            let mut targets: Vec<TargetStatus> = Vec::new();
            std::mem::swap(&mut targets, &mut status.targets);
            let id = targets[i].device_id;
            targets.set(i, TargetStatus { device_id: id, state: TransferState::Transferring, error: None });
            status.targets = targets;
            proof {
                assert forall|k: int|
                    0 <= k < before.len() && k != i && (forall|j: int| 0 <= j < k ==> before[j].device_id
                        != *device_id) && before[k].device_id == *device_id implies false by {
                    if k > i {
                        assert(before[i as int].device_id == *device_id);
                    }
                }
            }
        },
        None => {},
    }
    status.state = TransferState::Transferring;
}

/// The state of an outgoing transfer from its targets: completed when all
/// are, failed when one failed, else still transferring.
pub open spec fn aggregate_state(targets: Seq<TargetStatus>) -> TransferState {
    if forall|i: int| 0 <= i < targets.len() ==> targets[i].state == TransferState::Completed {
        TransferState::Completed
    } else if exists|i: int| 0 <= i < targets.len() && targets[i].state == TransferState::Failed {
        TransferState::Failed
    } else {
        TransferState::Transferring
    }
}

/// The first error among the targets.
pub open spec fn first_error(targets: Seq<TargetStatus>) -> Option<Seq<char>>
    decreases targets.len(),
{
    if targets.len() == 0 {
        None
    } else {
        match targets[0].error {
            Some(e) => Some(e@),
            None => first_error(targets.drop_first()),
        }
    }
}

fn aggregate(targets: &Vec<TargetStatus>) -> (r: (TransferState, Option<String>))
    ensures
        r.0 == aggregate_state(targets@),
        opt_text(r.1) == (if r.0 == TransferState::Failed { first_error(targets@) } else { None }),
{
    let mut all_completed = true;
    let mut any_failed = false;
    let mut error: Option<String> = None;
    let mut i: usize = targets.len();
    while i > 0
        invariant
            i <= targets@.len(),
            all_completed == forall|j: int| i <= j < targets@.len() ==> targets@[j].state == TransferState::Completed,
            any_failed == exists|j: int| i <= j < targets@.len() && targets@[j].state == TransferState::Failed,
            opt_text(error) == first_error(targets@.subrange(i as int, targets@.len() as int)),
        decreases i,
    {
        i = i - 1;
        let t = &targets[i];
        proof {
            let s = targets@.subrange(i as int, targets@.len() as int);
            assert(s[0] == *t);
            assert(s.drop_first() =~= targets@.subrange(i + 1, targets@.len() as int));
        }
        if t.state != TransferState::Completed {
            all_completed = false;
        }
        if t.state == TransferState::Failed {
            any_failed = true;
        }
        match &t.error {
            Some(e) => {
                error = Some(String::from_str(e.as_str()));
            },
            None => {},
        }
    }
    assert(targets@.subrange(0, targets@.len() as int) =~= targets@);
    if all_completed {
        (TransferState::Completed, None)
    } else if any_failed {
        (TransferState::Failed, error)
    } else {
        (TransferState::Transferring, None)
    }
}

/// Records that a file arrived at a target (outgoing) or here (incoming).
/// An incoming transfer is completed; an outgoing one takes the state of
/// its targets, with the first target error when it failed.
pub fn mark_completed(status: &mut TransferStatus, device_id: &Uuid, incoming: bool)
    ensures
        final(status).direction == old(status).direction,
        final(status).targets@.len() == old(status).targets@.len(),
        incoming ==> final(status).state == TransferState::Completed && final(status).error is None
            && final(status).targets@ == old(status).targets@,
        !incoming ==> {
            &&& forall|i: int| 0 <= i < final(status).targets@.len() ==> {
                let before = old(status).targets@[i];
                let after = #[trigger] final(status).targets@[i];
                &&& after.device_id == before.device_id
                &&& if (forall|j: int| 0 <= j < i ==> old(status).targets@[j].device_id != *device_id)
                    && before.device_id == *device_id {
                    after.state == TransferState::Completed && after.error is None
                } else {
                    after == before
                }
            }
            &&& final(status).state == aggregate_state(final(status).targets@)
            &&& opt_text(final(status).error) == (if final(status).state == TransferState::Failed {
                first_error(final(status).targets@)
            } else {
                None
            })
        },
{
    if incoming {
        status.state = TransferState::Completed;
        status.error = None;
        return;
    }
    match target_index(&status.targets, device_id) {
        Some(i) => {
            let ghost before = status.targets@;
            let mut targets: Vec<TargetStatus> = Vec::new();
            std::mem::swap(&mut targets, &mut status.targets);
            let id = targets[i].device_id;
            targets.set(i, TargetStatus { device_id: id, state: TransferState::Completed, error: None });
            status.targets = targets;
            proof {
                assert forall|k: int|
                    0 <= k < before.len() && k != i && (forall|j: int| 0 <= j < k ==> before[j].device_id
                        != *device_id) && before[k].device_id == *device_id implies false by {
                    if k > i {
                        assert(before[i as int].device_id == *device_id);
                    }
                }
            }
        },
        None => {},
    }
    let (state, error) = aggregate(&status.targets);
    status.state = state;
    status.error = error;
}

/// Records that a transfer to a target (outgoing) or here (incoming)
/// failed: the transfer carries the error; an incoming one fails, and so
/// does an outgoing one along with the target, when the target is listed.
pub fn mark_failed(status: &mut TransferStatus, device_id: &Uuid, error: String, incoming: bool)
    ensures
        final(status).direction == old(status).direction,
        opt_text(final(status).error) == Some(error@),
        final(status).targets@.len() == old(status).targets@.len(),
        incoming ==> final(status).state == TransferState::Failed && final(status).targets@ == old(status).targets@,
        !incoming ==> {
            &&& forall|i: int| 0 <= i < final(status).targets@.len() ==> {
                let before = old(status).targets@[i];
                let after = #[trigger] final(status).targets@[i];
                &&& after.device_id == before.device_id
                &&& if (forall|j: int| 0 <= j < i ==> old(status).targets@[j].device_id != *device_id)
                    && before.device_id == *device_id {
                    after.state == TransferState::Failed && opt_text(after.error) == Some(error@)
                } else {
                    after == before
                }
            }
            &&& final(status).state == (if exists|i: int|
                0 <= i < old(status).targets@.len() && old(status).targets@[i].device_id == *device_id {
                TransferState::Failed
            } else {
                old(status).state
            })
        },
{
    if incoming {
        status.state = TransferState::Failed;
        status.error = Some(error);
        return;
    }
    match target_index(&status.targets, device_id) {
        Some(i) => {
            let ghost before = status.targets@;
            let mut targets: Vec<TargetStatus> = Vec::new();
            std::mem::swap(&mut targets, &mut status.targets);
            let id = targets[i].device_id;
            targets.set(
                i,
                TargetStatus {
                    device_id: id,
                    state: TransferState::Failed,
                    error: Some(String::from_str(error.as_str())),
                },
            );
            status.targets = targets;
            status.state = TransferState::Failed;
            proof {
                assert forall|k: int|
                    0 <= k < before.len() && k != i && (forall|j: int| 0 <= j < k ==> before[j].device_id
                        != *device_id) && before[k].device_id == *device_id implies false by {
                    if k > i {
                        assert(before[i as int].device_id == *device_id);
                    }
                }
            }
        },
        None => {},
    }
    status.error = Some(error);
}

/// Cancels a transfer: it and every target not yet completed are cancelled.
pub fn mark_cancelled(status: &mut TransferStatus)
    ensures
        final(status).state == TransferState::Cancelled,
        final(status).error is None,
        final(status).direction == old(status).direction,
        final(status).targets@.len() == old(status).targets@.len(),
        forall|i: int| 0 <= i < final(status).targets@.len() ==> {
            let before = old(status).targets@[i];
            let after = #[trigger] final(status).targets@[i];
            &&& after.device_id == before.device_id
            &&& opt_text(after.error) == opt_text(before.error)
            &&& after.state == (if before.state == TransferState::Completed {
                TransferState::Completed
            } else {
                TransferState::Cancelled
            })
        },
{
    let ghost before = status.targets@;
    let mut rest: Vec<TargetStatus> = Vec::new();
    std::mem::swap(&mut rest, &mut status.targets);
    let mut updated: Vec<TargetStatus> = Vec::new();
    let n = rest.len();
    let mut k: usize = 0;
    while k < n
        invariant
            k <= n,
            n == before.len(),
            rest@ == before.subrange(k as int, n as int),
            updated@.len() == k,
            forall|i: int| 0 <= i < k ==> {
                let b = before[i];
                let a = #[trigger] updated@[i];
                &&& a.device_id == b.device_id
                &&& opt_text(a.error) == opt_text(b.error)
                &&& a.state == (if b.state == TransferState::Completed {
                    TransferState::Completed
                } else {
                    TransferState::Cancelled
                })
            },
        decreases n - k,
    {
        let target = rest.remove(0);
        proof {
            assert(target == before[k as int]);
            assert(rest@ =~= before.subrange(k + 1, n as int));
        }
        let state = if target.state == TransferState::Completed {
            TransferState::Completed
        } else {
            TransferState::Cancelled
        };
        updated.push(TargetStatus { device_id: target.device_id, state, error: target.error });
        k = k + 1;
    }
    status.targets = updated;
    status.state = TransferState::Cancelled;
    status.error = None;
}

/// A completed file is announced when notifications are on and the file
/// arrived here, or reached all of its targets.
pub fn should_notify_completion(notifications_enabled: bool, incoming: bool, state: TransferState) -> (b: bool)
    ensures
        b == (notifications_enabled && (incoming || state == TransferState::Completed)),
{
    notifications_enabled && (incoming || state == TransferState::Completed)
}

/// The seconds left at a transfer rate, when there is one.
pub fn eta_seconds(total: u64, transferred: u64, bytes_per_second: u64) -> (eta: Option<u64>)
    ensures
        bytes_per_second == 0 ==> eta is None,
        bytes_per_second > 0 ==> eta == Some(
            ((if transferred > total { 0 } else { total - transferred }) / bytes_per_second as int) as u64,
        ),
{
    if bytes_per_second > 0 {
        Some(total.saturating_sub(transferred) / bytes_per_second)
    } else {
        None
    }
}

/// An outgoing transfer completes only once every one of its targets has.
pub proof fn lemma_completed_only_when_all_targets_are(targets: Seq<TargetStatus>)
    requires
        aggregate_state(targets) == TransferState::Completed,
    ensures
        forall|i: int| 0 <= i < targets.len() ==> targets[i].state == TransferState::Completed,
{
}

} // verus!
