//! What the desktop session offers: the device's default name, clipboard
//! support, and the files a clipboard's URI list names.

use vstd::prelude::*;
use crate::error::{opt_chars, AppError};
use crate::history::{split_on, split_text};
use crate::model::{ClipboardCapability, DevicePlatform};
use crate::text::{
    ascii_lowercase, chars_of, lower_ascii_char, to_lowercase, trim_text, trimmed, unicode_lowercase,
};

verus! {

/// The name a device gets when the host name is missing or blank.
pub open spec fn fallback_device_name(platform: DevicePlatform) -> Seq<char> {
    match platform {
        DevicePlatform::Macos => "我的 Mac"@,
        DevicePlatform::Linux => "我的 Ubuntu"@,
        DevicePlatform::Unknown => "我的设备"@,
    }
}

/// The default device name: the host name unless it is missing or only
/// white space, else a name for the platform.
pub fn default_device_name(hostname: Option<String>, platform: DevicePlatform) -> (name: String)
    ensures
        match hostname {
            Some(h) => if trimmed(h@).len() > 0 {
                name@ == h@
            } else {
                name@ == fallback_device_name(platform)
            },
            None => name@ == fallback_device_name(platform),
        },
{
    if let Some(h) = hostname {
        let t = trim_text(h.as_str());
        if chars_of(t.as_str()).len() > 0 {
            return h;
        }
    }
    match platform {
        DevicePlatform::Macos => String::from_str("我的 Mac"),
        DevicePlatform::Linux => String::from_str("我的 Ubuntu"),
        DevicePlatform::Unknown => String::from_str("我的设备"),
    }
}

/// Clipboard support: full on macOS; on Linux, full except in a Wayland
/// session, where only the active app may read it until probed; none
/// elsewhere. `session_type` is the session type the desktop reports.
pub fn clipboard_capability(platform: DevicePlatform, session_type: &str) -> (c: ClipboardCapability)
    ensures
        platform == DevicePlatform::Macos ==> c == ClipboardCapability::Full,
        platform == DevicePlatform::Linux ==> (if unicode_lowercase(session_type@) == "wayland"@ {
            c == ClipboardCapability::AppActiveOnly
        } else {
            c == ClipboardCapability::Full
        }),
        platform == DevicePlatform::Unknown ==> c == ClipboardCapability::Unsupported,
{
    match platform {
        DevicePlatform::Macos => ClipboardCapability::Full,
        DevicePlatform::Linux => {
            let lower = to_lowercase(session_type);
            let wayland = String::from_str("wayland");
            if lower == wayland {
                ClipboardCapability::AppActiveOnly
            } else {
                ClipboardCapability::Full
            }
        },
        DevicePlatform::Unknown => ClipboardCapability::Unsupported,
    }
}

/// An entry of a URI list that names a file: not empty, not a comment, and
/// not the `copy` or `cut` marker some desktops put first.
pub open spec fn is_uri_entry(line: Seq<char>) -> bool {
    &&& line.len() > 0
    &&& line[0] != '#'
    &&& ascii_lowercase(line) != "copy"@
    &&& ascii_lowercase(line) != "cut"@
}

/// The entries of a URI list: its lines, trimmed, that name files.
pub open spec fn uri_entries(contents: Seq<char>) -> Seq<Seq<char>> {
    split_on(contents, '\n').map_values(|l: Seq<char>| trimmed(l)).filter(|l: Seq<char>| is_uri_entry(l))
}

fn ascii_lower_text(s: &str) -> (l: Vec<char>)
    ensures
        l@ == ascii_lowercase(s@),
{
    let chars = chars_of(s);
    let mut out: Vec<char> = Vec::new();
    let mut i: usize = 0;
    while i < chars.len()
        invariant
            i <= chars@.len(),
            chars@ == s@,
            out@.len() == i,
            forall|j: int| 0 <= j < i ==> #[trigger] out@[j] == ascii_lowercase(s@)[j],
        decreases chars@.len() - i,
    {
        out.push(lower_ascii_char(chars[i]));
        i = i + 1;
    }
    assert(out@ =~= ascii_lowercase(s@));
    out
}

fn equals_text(a: &Vec<char>, b: &str) -> (e: bool)
    ensures
        e == (a@ == b@),
{
    let other = chars_of(b);
    if a.len() != other.len() {
        return false;
    }
    let mut i: usize = 0;
    while i < a.len()
        invariant
            i <= a@.len(),
            a@.len() == other@.len(),
            other@ == b@,
            forall|j: int| 0 <= j < i ==> a@[j] == other@[j],
        decreases a@.len() - i,
    {
        if a[i] != other[i] {
            return false;
        }
        i = i + 1;
    }
    assert(a@ =~= other@);
    true
}

fn uri_entry(line: &str) -> (keep: bool)
    ensures
        keep == is_uri_entry(line@),
{
    let chars = chars_of(line);
    if chars.len() == 0 || chars[0] == '#' {
        return false;
    }
    let lower = ascii_lower_text(line);
    !equals_text(&lower, "copy") && !equals_text(&lower, "cut")
}

/// The file-naming entries of a URI list, in order.
pub fn uri_list_entries(contents: &str) -> (entries: Vec<String>)
    ensures
        entries@.map_values(|e: String| e@) == uri_entries(contents@),
{
    let lines = split_text(contents, '\n');
    let ghost all = split_on(contents@, '\n').map_values(|l: Seq<char>| trimmed(l));
    let ghost pred = |l: Seq<char>| is_uri_entry(l);
    let mut entries: Vec<String> = Vec::new();
    let mut i: usize = 0;
    while i < lines.len()
        invariant
            i <= lines@.len(),
            lines@.len() == split_on(contents@, '\n').len(),
            forall|k: int| 0 <= k < lines@.len() ==> #[trigger] lines@[k]@ == split_on(contents@, '\n')[k],
            all == split_on(contents@, '\n').map_values(|l: Seq<char>| trimmed(l)),
            pred == (|l: Seq<char>| is_uri_entry(l)),
            entries@.map_values(|e: String| e@) == all.subrange(0, i as int).filter(pred),
        decreases lines@.len() - i,
    {
        let line = trim_text(lines[i].as_str());
        proof {
            assert(line@ == all[i as int]);
            let pre = all.subrange(0, i as int);
            assert(all.subrange(0, i + 1) =~= pre.push(all[i as int]));
            pre.lemma_filter_push(all[i as int], pred);
        }
        if uri_entry(line.as_str()) {
            let ghost before = entries@;
            entries.push(line);
            proof {
                assert(entries@.map_values(|e: String| e@) =~= before.map_values(|e: String| e@).push(
                    all[i as int],
                ));
            }
        }
        i = i + 1;
    }
    assert(all.subrange(0, all.len() as int) =~= all);
    entries
}

/// `url::Url::parse(text)?.to_file_path()` as text: the local path a
/// `file:` URL names, when it names one that is valid UTF-8. How a URL maps
/// to a path depends on the operating system, so nothing more is promised.
#[verifier::external_body]
fn file_url_path(text: &str) -> (path: Option<String>) {
    match url::Url::parse(text) {
        Ok(url) => match url.to_file_path() {
            Ok(path) => path.into_os_string().into_string().ok(),
            Err(()) => None,
        },
        Err(_) => None,
    }
}

/// `out` is an answer `file_url_path` gives for the entry `entry`.
pub closed spec fn resolves_to(entry: Seq<char>, out: Option<String>) -> bool {
    exists|s: &str| s@ == entry && #[trigger] call_ensures(file_url_path, (s,), out)
}

/// `r` answers a URI list with entries `entries` whose entries resolved, one
/// each and in order, to `resolved`: every result is what `file_url_path`
/// gives for its own entry, and `r` collects them.
pub open spec fn uri_list_answer(
    entries: Seq<Seq<char>>,
    resolved: Seq<Option<String>>,
    r: Result<Vec<String>, AppError>,
) -> bool {
    &&& resolved.len() == entries.len()
    &&& forall|i: int| 0 <= i < resolved.len() ==> #[trigger] resolves_to(entries[i], resolved[i])
    &&& paths_collected(resolved.map_values(|o: Option<String>| opt_chars(o)), r)
}

/// The local paths among the per-entry results, in entry order.
pub open spec fn local_paths(resolved: Seq<Option<Seq<char>>>) -> Seq<Seq<char>>
    decreases resolved.len(),
{
    if resolved.len() == 0 {
        Seq::empty()
    } else {
        let before = local_paths(resolved.drop_last());
        match resolved.last() {
            Some(p) => before.push(p),
            None => before,
        }
    }
}

/// What collecting the per-entry results answers: the local paths in entry
/// order when there is one, else the error that no local file was named.
pub open spec fn paths_collected(resolved: Seq<Option<Seq<char>>>, r: Result<Vec<String>, AppError>) -> bool {
    if local_paths(resolved).len() > 0 {
        r matches Ok(paths) && paths@.map_values(|p: String| p@) == local_paths(resolved)
    } else {
        r matches Err(AppError::InvalidInput(m)) && m@ == "the clipboard URI list contains no local files"@
    }
}

/// When every entry resolves to a local path, every one is kept, one per
/// entry and in entry order.
pub proof fn lemma_all_local_paths_kept(resolved: Seq<Option<Seq<char>>>)
    requires
        forall|i: int| 0 <= i < resolved.len() ==> #[trigger] resolved[i] is Some,
    ensures
        local_paths(resolved).len() == resolved.len(),
        forall|i: int| 0 <= i < resolved.len() ==> #[trigger] local_paths(resolved)[i] == resolved[i]->0,
    decreases resolved.len(),
{
    if resolved.len() > 0 {
        let before = resolved.drop_last();
        assert forall|i: int| 0 <= i < before.len() implies #[trigger] before[i] is Some by {
            assert(before[i] == resolved[i]);
        }
        lemma_all_local_paths_kept(before);
        assert(resolved.last() == resolved[resolved.len() - 1]);
        assert forall|i: int| 0 <= i < resolved.len() implies #[trigger] local_paths(resolved)[i]
            == resolved[i]->0 by {
            if i < resolved.len() - 1 {
                assert(before[i] == resolved[i]);
            }
        }
    }
}

/// A URI list whose entries all name local files is answered with all of
/// their paths, one per entry and in entry order.
pub proof fn lemma_uri_list_keeps_every_file(
    entries: Seq<Seq<char>>,
    resolved: Seq<Option<String>>,
    r: Result<Vec<String>, AppError>,
)
    requires
        uri_list_answer(entries, resolved, r),
        entries.len() > 0,
        forall|i: int| 0 <= i < resolved.len() ==> #[trigger] resolved[i] is Some,
    ensures
        r matches Ok(paths) && paths@.len() == entries.len() && forall|i: int|
            0 <= i < paths@.len() ==> #[trigger] paths@[i]@ == resolved[i]->0@,
{
    let views = resolved.map_values(|o: Option<String>| opt_chars(o));
    assert forall|i: int| 0 <= i < views.len() implies #[trigger] views[i] is Some by {
        assert(resolved[i] is Some);
    }
    lemma_all_local_paths_kept(views);
    assert(local_paths(views)[0] == views[0]->0);
    let paths = r->Ok_0;
    assert forall|i: int| 0 <= i < paths@.len() implies #[trigger] paths@[i]@ == resolved[i]->0@ by {
        assert(paths@.map_values(|p: String| p@)[i] == local_paths(views)[i]);
        assert(views[i] == opt_chars(resolved[i]));
    }
}

/// Collects the local paths that the entries of a URI list resolved to
/// (`None` for an entry that names no local file), keeping their order.
pub fn collect_local_paths(resolved: Vec<Option<String>>) -> (r: Result<Vec<String>, AppError>)
    ensures
        paths_collected(resolved@.map_values(|o: Option<String>| opt_chars(o)), r),
{
    let ghost views = resolved@.map_values(|o: Option<String>| opt_chars(o));
    let mut paths: Vec<String> = Vec::new();
    let mut i: usize = 0;
    while i < resolved.len()
        invariant
            i <= resolved@.len(),
            paths@.map_values(|p: String| p@) == local_paths(views.subrange(0, i as int)),
            views == resolved@.map_values(|o: Option<String>| opt_chars(o)),
        decreases resolved@.len() - i,
    {
        let ghost before = paths@;
        proof {
            assert(views.subrange(0, i + 1).drop_last() =~= views.subrange(0, i as int));
        }
        match &resolved[i] {
            Some(p) => {
                paths.push(p.clone());
                proof {
                    assert(paths@.map_values(|p: String| p@) =~= before.map_values(|p: String| p@).push(
                        views[i as int]->0,
                    ));
                }
            },
            None => {},
        }
        i = i + 1;
    }
    proof {
        assert(views.subrange(0, views.len() as int) =~= views);
    }
    if paths.len() == 0 {
        return Err(AppError::InvalidInput(String::from_str("the clipboard URI list contains no local files")));
    }
    Ok(paths)
}

/// The local files a clipboard's URI list names; an error when it names
/// none. Each entry is resolved with `file_url_path`, whose answer depends on
/// the operating system; whatever the entries resolve to, the answer is the
/// collection of those per-entry results, one per entry.
pub fn parse_uri_list(contents: &str) -> (r: Result<Vec<String>, AppError>)
    ensures
        exists|resolved: Seq<Option<Seq<char>>>| {
            &&& resolved.len() == uri_entries(contents@).len()
            &&& #[trigger] paths_collected(resolved, r)
        },
        uri_entries(contents@).len() == 0 ==> (r matches Err(AppError::InvalidInput(m)) && m@
            == "the clipboard URI list contains no local files"@),
        exists|resolved: Seq<Option<String>>| #[trigger] uri_list_answer(uri_entries(contents@), resolved, r),
{
    let entries = uri_list_entries(contents);
    let ghost texts = uri_entries(contents@);
    let mut resolved: Vec<Option<String>> = Vec::new();
    let mut i: usize = 0;
    while i < entries.len()
        invariant
            i <= entries@.len(),
            resolved@.len() == i,
            texts == uri_entries(contents@),
            entries@.map_values(|e: String| e@) == texts,
            forall|j: int| 0 <= j < i ==> #[trigger] resolves_to(texts[j], resolved@[j]),
        decreases entries@.len() - i,
    {
        let entry = entries[i].as_str();
        let out = file_url_path(entry);
        proof {
            assert(texts[i as int] == entries@[i as int]@);
            assert(call_ensures(file_url_path, (entry,), out));
        }
        resolved.push(out);
        i = i + 1;
    }
    proof {
        assert(entries@.map_values(|e: String| e@).len() == entries@.len());
    }
    let ghost views = resolved@.map_values(|o: Option<String>| opt_chars(o));
    let ghost answers = resolved@;
    let r = collect_local_paths(resolved);
    proof {
        if uri_entries(contents@).len() == 0 {
            assert(views =~= Seq::<Option<Seq<char>>>::empty());
        }
        assert(uri_list_answer(texts, answers, r));
    }
    r
}

/// A mouse button on the tray icon.
#[derive(Debug, Clone, Copy, PartialEq, Eq, Structural)]
pub enum MouseButton {
    Left,
    Right,
    Middle,
}

/// Whether a mouse button went down or up.
#[derive(Debug, Clone, Copy, PartialEq, Eq, Structural)]
pub enum MouseButtonState {
    Up,
    Down,
}

/// Only a completed left click on the tray icon opens the window.
pub fn is_activation_click(button: MouseButton, state: MouseButtonState) -> (b: bool)
    ensures
        b == (button == MouseButton::Left && state == MouseButtonState::Up),
{
    button == MouseButton::Left && state == MouseButtonState::Up
}

} // verus!
