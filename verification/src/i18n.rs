//! Texts of the native menus, dialogs and notifications in the supported
//! languages, and how the system's language is recognized.

use vstd::prelude::*;
use crate::history::{lemma_split_nonempty_pub, split_on, split_text};
use crate::model::LanguagePreference;
use crate::text::{
    ascii_lowercase, chars_of, concat3, contains_chars, contains_seq, lower_ascii_char, occurs_at,
    occurs_at_exec, replace_char, starts_with_seq, string_from_chars, trim_text, trimmed,
};

verus! {

/// A text of the native user interface.
#[derive(Debug, Clone, Copy, PartialEq, Eq, Structural)]
pub enum NativeText {
    TrayOpen,
    TrayPause,
    TraySendFile,
    TrayQuit,
    SelectReceiveFolder,
    SelectFiles,
}

/// A language the interface is written in.
#[derive(Debug, Clone, Copy, PartialEq, Eq, Structural)]
pub enum Locale {
    En,
    ZhCn,
    ZhTw,
    Ja,
    Ko,
}

/// The language a preference selects; `System` follows the system's.
pub open spec fn resolved(preference: LanguagePreference, system: Locale) -> Locale {
    match preference {
        LanguagePreference::System => system,
        LanguagePreference::En => Locale::En,
        LanguagePreference::ZhCn => Locale::ZhCn,
        LanguagePreference::ZhTw => Locale::ZhTw,
        LanguagePreference::Ja => Locale::Ja,
        LanguagePreference::Ko => Locale::Ko,
    }
}

/// The language a preference selects, given the system's language.
pub fn resolve(preference: LanguagePreference, system: Locale) -> (l: Locale)
    ensures
        l == resolved(preference, system),
{
    match preference {
        LanguagePreference::System => system,
        LanguagePreference::En => Locale::En,
        LanguagePreference::ZhCn => Locale::ZhCn,
        LanguagePreference::ZhTw => Locale::ZhTw,
        LanguagePreference::Ja => Locale::Ja,
        LanguagePreference::Ko => Locale::Ko,
    }
}

/// A native text in a language.
pub open spec fn native_text(locale: Locale, key: NativeText) -> Seq<char> {
    match locale {
        Locale::En => match key {
            NativeText::TrayOpen => "Open SyncHalo"@,
            NativeText::TrayPause => "Pause or resume sync"@,
            NativeText::TraySendFile => "Send files…"@,
            NativeText::TrayQuit => "Quit"@,
            NativeText::SelectReceiveFolder => "Choose receive folder"@,
            NativeText::SelectFiles => "Choose files to sync"@,
        },
        Locale::ZhCn => match key {
            NativeText::TrayOpen => "打开 SyncHalo"@,
            NativeText::TrayPause => "暂停或恢复同步"@,
            NativeText::TraySendFile => "发送文件…"@,
            NativeText::TrayQuit => "退出"@,
            NativeText::SelectReceiveFolder => "选择接收目录"@,
            NativeText::SelectFiles => "选择要同步的文件"@,
        },
        Locale::ZhTw => match key {
            NativeText::TrayOpen => "開啟 SyncHalo"@,
            NativeText::TrayPause => "暫停或恢復同步"@,
            NativeText::TraySendFile => "傳送檔案…"@,
            NativeText::TrayQuit => "結束"@,
            NativeText::SelectReceiveFolder => "選擇接收資料夾"@,
            NativeText::SelectFiles => "選擇要同步的檔案"@,
        },
        Locale::Ja => match key {
            NativeText::TrayOpen => "SyncHalo を開く"@,
            NativeText::TrayPause => "同期を一時停止または再開"@,
            NativeText::TraySendFile => "ファイルを送信…"@,
            NativeText::TrayQuit => "終了"@,
            NativeText::SelectReceiveFolder => "受信フォルダーを選択"@,
            NativeText::SelectFiles => "同期するファイルを選択"@,
        },
        Locale::Ko => match key {
            NativeText::TrayOpen => "SyncHalo 열기"@,
            NativeText::TrayPause => "동기화 일시 정지 또는 재개"@,
            NativeText::TraySendFile => "파일 보내기…"@,
            NativeText::TrayQuit => "종료"@,
            NativeText::SelectReceiveFolder => "수신 폴더 선택"@,
            NativeText::SelectFiles => "동기화할 파일 선택"@,
        },
    }
}

/// A native text in the language a preference selects.
pub fn text(preference: LanguagePreference, key: NativeText, system: Locale) -> (t: &'static str)
    ensures
        t@ == native_text(resolved(preference, system), key),
{
    match resolve(preference, system) {
        Locale::En => match key {
            NativeText::TrayOpen => "Open SyncHalo",
            NativeText::TrayPause => "Pause or resume sync",
            NativeText::TraySendFile => "Send files…",
            NativeText::TrayQuit => "Quit",
            NativeText::SelectReceiveFolder => "Choose receive folder",
            NativeText::SelectFiles => "Choose files to sync",
        },
        Locale::ZhCn => match key {
            NativeText::TrayOpen => "打开 SyncHalo",
            NativeText::TrayPause => "暂停或恢复同步",
            NativeText::TraySendFile => "发送文件…",
            NativeText::TrayQuit => "退出",
            NativeText::SelectReceiveFolder => "选择接收目录",
            NativeText::SelectFiles => "选择要同步的文件",
        },
        Locale::ZhTw => match key {
            NativeText::TrayOpen => "開啟 SyncHalo",
            NativeText::TrayPause => "暫停或恢復同步",
            NativeText::TraySendFile => "傳送檔案…",
            NativeText::TrayQuit => "結束",
            NativeText::SelectReceiveFolder => "選擇接收資料夾",
            NativeText::SelectFiles => "選擇要同步的檔案",
        },
        Locale::Ja => match key {
            NativeText::TrayOpen => "SyncHalo を開く",
            NativeText::TrayPause => "同期を一時停止または再開",
            NativeText::TraySendFile => "ファイルを送信…",
            NativeText::TrayQuit => "終了",
            NativeText::SelectReceiveFolder => "受信フォルダーを選択",
            NativeText::SelectFiles => "同期するファイルを選択",
        },
        Locale::Ko => match key {
            NativeText::TrayOpen => "SyncHalo 열기",
            NativeText::TrayPause => "동기화 일시 정지 또는 재개",
            NativeText::TraySendFile => "파일 보내기…",
            NativeText::TrayQuit => "종료",
            NativeText::SelectReceiveFolder => "수신 폴더 선택",
            NativeText::SelectFiles => "동기화할 파일 선택",
        },
    }
}

/// The title of an update notification, and the text around the version
/// in its body; `flag` tells whether the update is downloaded.
pub open spec fn update_title(locale: Locale, flag: bool) -> Seq<char> {
    match locale {
        Locale::En => if flag { "SyncHalo update downloaded"@ } else { "SyncHalo update available"@ },
        Locale::ZhCn => if flag { "SyncHalo 更新已下载"@ } else { "SyncHalo 发现新版本"@ },
        Locale::ZhTw => if flag { "SyncHalo 更新已下載"@ } else { "SyncHalo 有新版本"@ },
        Locale::Ja => if flag { "SyncHalo アップデートをダウンロードしました"@ } else { "SyncHalo の新しいバージョンがあります"@ },
        Locale::Ko => if flag { "SyncHalo 업데이트 다운로드 완료"@ } else { "SyncHalo 새 버전 사용 가능"@ },
    }
}

pub open spec fn update_before(locale: Locale, flag: bool) -> Seq<char> {
    match locale {
        Locale::En => if flag { "SyncHalo "@ } else { "SyncHalo "@ },
        Locale::ZhCn => if flag { "SyncHalo "@ } else { "SyncHalo "@ },
        Locale::ZhTw => if flag { "SyncHalo "@ } else { "SyncHalo "@ },
        Locale::Ja => if flag { "SyncHalo "@ } else { "SyncHalo "@ },
        Locale::Ko => if flag { "SyncHalo "@ } else { "SyncHalo "@ },
    }
}

pub open spec fn update_after(locale: Locale, flag: bool) -> Seq<char> {
    match locale {
        Locale::En => if flag { " has been verified. Open the app to install and restart."@ } else { " is available. Open the app to view the release notes."@ },
        Locale::ZhCn => if flag { " 已完成验证，打开应用安装并重启。"@ } else { " 可用，打开应用查看发布说明。"@ },
        Locale::ZhTw => if flag { " 已完成驗證，開啟應用程式以安裝並重新啟動。"@ } else { " 可供使用，開啟應用程式以檢視版本說明。"@ },
        Locale::Ja => if flag { " の検証が完了しました。アプリを開いてインストールし、再起動してください。"@ } else { " を利用できます。アプリを開いてリリースノートを確認してください。"@ },
        Locale::Ko => if flag { " 검증이 완료되었습니다. 앱을 열어 설치하고 다시 시작하세요."@ } else { "을 사용할 수 있습니다. 앱을 열어 릴리스 노트를 확인하세요."@ },
    }
}

fn update_parts(locale: Locale, flag: bool) -> (r: (&'static str, &'static str, &'static str))
    ensures
        r.0@ == update_title(locale, flag),
        r.1@ == update_before(locale, flag),
        r.2@ == update_after(locale, flag),
{
    match locale {
        Locale::En => if flag {
            ("SyncHalo update downloaded", "SyncHalo ", " has been verified. Open the app to install and restart.")
        } else {
            ("SyncHalo update available", "SyncHalo ", " is available. Open the app to view the release notes.")
        },
        Locale::ZhCn => if flag {
            ("SyncHalo 更新已下载", "SyncHalo ", " 已完成验证，打开应用安装并重启。")
        } else {
            ("SyncHalo 发现新版本", "SyncHalo ", " 可用，打开应用查看发布说明。")
        },
        Locale::ZhTw => if flag {
            ("SyncHalo 更新已下載", "SyncHalo ", " 已完成驗證，開啟應用程式以安裝並重新啟動。")
        } else {
            ("SyncHalo 有新版本", "SyncHalo ", " 可供使用，開啟應用程式以檢視版本說明。")
        },
        Locale::Ja => if flag {
            ("SyncHalo アップデートをダウンロードしました", "SyncHalo ", " の検証が完了しました。アプリを開いてインストールし、再起動してください。")
        } else {
            ("SyncHalo の新しいバージョンがあります", "SyncHalo ", " を利用できます。アプリを開いてリリースノートを確認してください。")
        },
        Locale::Ko => if flag {
            ("SyncHalo 업데이트 다운로드 완료", "SyncHalo ", " 검증이 완료되었습니다. 앱을 열어 설치하고 다시 시작하세요.")
        } else {
            ("SyncHalo 새 버전 사용 가능", "SyncHalo ", "을 사용할 수 있습니다. 앱을 열어 릴리스 노트를 확인하세요.")
        },
    }
}

/// The notification that an update is available (`ready` false) or has
/// been downloaded and verified (`ready` true): its title and body.
pub fn update_notification(preference: LanguagePreference, ready: bool, version: &str, system: Locale) -> (r: (
    &'static str,
    String,
))
    ensures
        r.0@ == update_title(resolved(preference, system), ready),
        r.1@ == update_before(resolved(preference, system), ready) + version@ + update_after(
            resolved(preference, system),
            ready,
        ),
{
    let (title, before, after) = update_parts(resolve(preference, system), ready);
    (title, concat3(before, version, after))
}

/// The title of a file notification, and the text around the file name in
/// its body; `flag` tells whether the file was received.
pub open spec fn transfer_title(locale: Locale, flag: bool) -> Seq<char> {
    match locale {
        Locale::En => if flag { "SyncHalo file sync complete"@ } else { "SyncHalo file sync complete"@ },
        Locale::ZhCn => if flag { "SyncHalo 文件同步完成"@ } else { "SyncHalo 文件同步完成"@ },
        Locale::ZhTw => if flag { "SyncHalo 檔案同步完成"@ } else { "SyncHalo 檔案同步完成"@ },
        Locale::Ja => if flag { "SyncHalo ファイル同期完了"@ } else { "SyncHalo ファイル同期完了"@ },
        Locale::Ko => if flag { "SyncHalo 파일 동기화 완료"@ } else { "SyncHalo 파일 동기화 완료"@ },
    }
}

pub open spec fn transfer_after(locale: Locale, flag: bool) -> Seq<char> {
    match locale {
        Locale::En => if flag { " was saved to the receive folder"@ } else { " was sent successfully"@ },
        Locale::ZhCn => if flag { " 已保存到接收目录"@ } else { " 已发送完成"@ },
        Locale::ZhTw => if flag { " 已儲存到接收資料夾"@ } else { " 已傳送完成"@ },
        Locale::Ja => if flag { " を受信フォルダーに保存しました"@ } else { " を送信しました"@ },
        Locale::Ko => if flag { " 파일을 수신 폴더에 저장했습니다"@ } else { " 파일을 전송했습니다"@ },
    }
}

fn transfer_parts(locale: Locale, flag: bool) -> (r: (&'static str, &'static str, &'static str))
    ensures
        r.0@ == transfer_title(locale, flag),
        r.1@ == ""@,
        r.2@ == transfer_after(locale, flag),
{
    match locale {
        Locale::En => if flag {
            ("SyncHalo file sync complete", "", " was saved to the receive folder")
        } else {
            ("SyncHalo file sync complete", "", " was sent successfully")
        },
        Locale::ZhCn => if flag {
            ("SyncHalo 文件同步完成", "", " 已保存到接收目录")
        } else {
            ("SyncHalo 文件同步完成", "", " 已发送完成")
        },
        Locale::ZhTw => if flag {
            ("SyncHalo 檔案同步完成", "", " 已儲存到接收資料夾")
        } else {
            ("SyncHalo 檔案同步完成", "", " 已傳送完成")
        },
        Locale::Ja => if flag {
            ("SyncHalo ファイル同期完了", "", " を受信フォルダーに保存しました")
        } else {
            ("SyncHalo ファイル同期完了", "", " を送信しました")
        },
        Locale::Ko => if flag {
            ("SyncHalo 파일 동기화 완료", "", " 파일을 수신 폴더에 저장했습니다")
        } else {
            ("SyncHalo 파일 동기화 완료", "", " 파일을 전송했습니다")
        },
    }
}

/// The notification that a file was received (`incoming`) or sent.
pub fn transfer_notification(preference: LanguagePreference, incoming: bool, file_name: &str, system: Locale) -> (r: (
    &'static str,
    String,
))
    ensures
        r.0@ == transfer_title(resolved(preference, system), incoming),
        r.1@ == file_name@ + transfer_after(resolved(preference, system), incoming),
{
    let (title, before, after) = transfer_parts(resolve(preference, system), incoming);
    proof {
        reveal_strlit("");
    }
    let body = concat3(before, file_name, after);
    assert(body@ =~= file_name@ + after@);
    (title, body)
}

/// A language tag as compared: trimmed, ASCII-lowercased, with `_` read as `-`.
pub open spec fn normalized_tag(tag: Seq<char>) -> Seq<char> {
    replace_char(ascii_lowercase(trimmed(tag)), '_', '-')
}

/// The language a tag such as `zh-Hant-TW` or `en_US` names, if supported:
/// Chinese in traditional script (`hant`, Taiwan, Hong Kong, Macao) or
/// simplified, Japanese, Korean or English.
pub open spec fn locale_of_tag(tag: Seq<char>) -> Option<Locale> {
    let n = normalized_tag(tag);
    if starts_with_seq(n, "zh"@) {
        if contains_seq(n, "hant"@) || contains_seq(n, "-tw"@) || contains_seq(n, "-hk"@) || contains_seq(
            n,
            "-mo"@,
        ) {
            Some(Locale::ZhTw)
        } else {
            Some(Locale::ZhCn)
        }
    } else if starts_with_seq(n, "ja"@) {
        Some(Locale::Ja)
    } else if starts_with_seq(n, "ko"@) {
        Some(Locale::Ko)
    } else if starts_with_seq(n, "en"@) {
        Some(Locale::En)
    } else {
        None
    }
}

fn normalize_tag(tag: &str) -> (n: Vec<char>)
    ensures
        n@ == normalized_tag(tag@),
{
    let t = trim_text(tag);
    let chars = chars_of(t.as_str());
    let mut out: Vec<char> = Vec::new();
    let mut i: usize = 0;
    while i < chars.len()
        invariant
            i <= chars@.len(),
            chars@ == trimmed(tag@),
            out@.len() == i,
            forall|j: int| 0 <= j < i ==> #[trigger] out@[j] == normalized_tag(tag@)[j],
        decreases chars@.len() - i,
    {
        let c = lower_ascii_char(chars[i]);
        let d = if c == '_' { '-' } else { c };
        out.push(d);
        i = i + 1;
    }
    assert(out@ =~= normalized_tag(tag@));
    out
}

fn starts_with_str(hay: &Vec<char>, prefix: &str) -> (b: bool)
    ensures
        b == starts_with_seq(hay@, prefix@),
{
    let needle = chars_of(prefix);
    occurs_at_exec(hay.as_slice(), needle.as_slice(), 0)
}

fn contains_str(hay: &Vec<char>, needle: &str) -> (b: bool)
    ensures
        b == contains_seq(hay@, needle@),
{
    let n = chars_of(needle);
    contains_chars(hay.as_slice(), n.as_slice())
}

/// A Chinese tag that names the traditional script or Taiwan, Hong Kong or
/// Macao selects Traditional Chinese, whatever else it holds.
pub proof fn lemma_traditional_chinese_tags(tag: Seq<char>)
    requires
        starts_with_seq(normalized_tag(tag), "zh"@),
        contains_seq(normalized_tag(tag), "hant"@) || contains_seq(normalized_tag(tag), "-tw"@)
            || contains_seq(normalized_tag(tag), "-hk"@) || contains_seq(normalized_tag(tag), "-mo"@),
    ensures
        locale_of_tag(tag) == Some(Locale::ZhTw),
{
}

/// Any other Chinese tag selects Simplified Chinese.
pub proof fn lemma_simplified_chinese_tags(tag: Seq<char>)
    requires
        starts_with_seq(normalized_tag(tag), "zh"@),
        !contains_seq(normalized_tag(tag), "hant"@),
        !contains_seq(normalized_tag(tag), "-tw"@),
        !contains_seq(normalized_tag(tag), "-hk"@),
        !contains_seq(normalized_tag(tag), "-mo"@),
    ensures
        locale_of_tag(tag) == Some(Locale::ZhCn),
{
}

/// The supported language a tag names, if any.
pub fn locale_from_tag(tag: &str) -> (l: Option<Locale>)
    ensures
        l == locale_of_tag(tag@),
{
    let n = normalize_tag(tag);
    if starts_with_str(&n, "zh") {
        if contains_str(&n, "hant") || contains_str(&n, "-tw") || contains_str(&n, "-hk") || contains_str(
            &n,
            "-mo",
        ) {
            return Some(Locale::ZhTw);
        }
        return Some(Locale::ZhCn);
    }
    if starts_with_str(&n, "ja") {
        return Some(Locale::Ja);
    }
    if starts_with_str(&n, "ko") {
        return Some(Locale::Ko);
    }
    if starts_with_str(&n, "en") {
        Some(Locale::En)
    } else {
        None
    }
}

/// The system's language: that of the first tag naming a supported one,
/// else English.
pub open spec fn system_locale_of(tags: Seq<Seq<char>>) -> Locale
    decreases tags.len(),
{
    if tags.len() == 0 {
        Locale::En
    } else {
        match locale_of_tag(tags[0]) {
            Some(l) => l,
            None => system_locale_of(tags.drop_first()),
        }
    }
}

/// The system's language from its language tags, in order of preference.
pub fn detect_system_locale(tags: &Vec<String>) -> (l: Locale)
    ensures
        l == system_locale_of(tags@.map_values(|t: String| t@)),
{
    let ghost all = tags@.map_values(|t: String| t@);
    assert(all.subrange(0, all.len() as int) =~= all);
    let mut i: usize = 0;
    while i < tags.len()
        invariant
            i <= tags@.len(),
            all == tags@.map_values(|t: String| t@),
            system_locale_of(all) == system_locale_of(all.subrange(i as int, all.len() as int)),
        decreases tags@.len() - i,
    {
        let ghost rest = all.subrange(i as int, all.len() as int);
        assert(rest[0] == tags@[i as int]@);
        assert(rest.drop_first() =~= all.subrange(i + 1, all.len() as int));
        if let Some(l) = locale_from_tag(tags[i].as_str()) {
            return l;
        }
        i = i + 1;
    }
    assert(all.subrange(i as int, all.len() as int).len() == 0);
    Locale::En
}

/// The characters around a language tag in the output of `defaults read -g
/// AppleLanguages`: parentheses, quotes, commas and spaces.
pub open spec fn is_tag_punctuation(c: char) -> bool {
    c == '(' || c == ')' || c == '"' || c == ',' || c == ' '
}

pub open spec fn strip_start(s: Seq<char>) -> Seq<char>
    decreases s.len(),
{
    if s.len() > 0 && is_tag_punctuation(s[0]) {
        strip_start(s.drop_first())
    } else {
        s
    }
}

pub open spec fn strip_end(s: Seq<char>) -> Seq<char>
    decreases s.len(),
{
    if s.len() > 0 && is_tag_punctuation(s.last()) {
        strip_end(s.drop_last())
    } else {
        s
    }
}

/// A line of that output, trimmed and without the punctuation around it.
pub open spec fn apple_tag(line: Seq<char>) -> Seq<char> {
    strip_end(strip_start(trimmed(line)))
}

/// The language tags that output lists, in order.
pub open spec fn apple_tags(output: Seq<char>) -> Seq<Seq<char>> {
    split_on(output, '\n').map_values(|l: Seq<char>| apple_tag(l)).filter(|t: Seq<char>| t.len() > 0)
}

fn strip_punctuation(s: &str) -> (t: String)
    ensures
        t@ == strip_end(strip_start(s@)),
{
    let chars = chars_of(s);
    let mut i: usize = 0;
    let n = chars.len();
    assert(chars@.subrange(0, n as int) =~= chars@);
    while i < n && (chars[i] == '(' || chars[i] == ')' || chars[i] == '"' || chars[i] == ',' || chars[i] == ' ')
        invariant
            i <= n,
            n == chars@.len(),
            chars@ == s@,
            strip_start(s@) == strip_start(chars@.subrange(i as int, n as int)),
        decreases n - i,
    {
        proof {
            let r = chars@.subrange(i as int, n as int);
            assert(r.drop_first() =~= chars@.subrange(i + 1, n as int));
        }
        i = i + 1;
    }
    proof {
        if i == 0 {
            assert(chars@.subrange(0, n as int) =~= chars@);
        }
    }
    let ghost rest = chars@.subrange(i as int, n as int);
    assert(strip_start(rest) == rest);
    let mut k: usize = n;
    while k > i && (chars[k - 1] == '(' || chars[k - 1] == ')' || chars[k - 1] == '"' || chars[k - 1] == ','
        || chars[k - 1] == ' ')
        invariant
            i <= k <= n,
            n == chars@.len(),
            rest == chars@.subrange(i as int, n as int),
            strip_end(rest) == strip_end(chars@.subrange(i as int, k as int)),
        decreases k - i,
    {
        proof {
            let r = chars@.subrange(i as int, k as int);
            assert(r.drop_last() =~= chars@.subrange(i as int, k - 1));
        }
        k = k - 1;
    }
    proof {
        if k == n {
            assert(chars@.subrange(i as int, k as int) =~= rest);
        }
    }
    let mut out: Vec<char> = Vec::new();
    let mut j = i;
    while j < k
        invariant
            i <= j <= k,
            k <= n,
            n == chars@.len(),
            out@ == chars@.subrange(i as int, j as int),
        decreases k - j,
    {
        out.push(chars[j]);
        j = j + 1;
        assert(out@ =~= chars@.subrange(i as int, j as int));
    }
    string_from_chars(out.as_slice())
}

/// The language tags in the output of `defaults read -g AppleLanguages`.
pub fn apple_language_tags(output: &str) -> (tags: Vec<String>)
    ensures
        tags@.map_values(|t: String| t@) == apple_tags(output@),
{
    let lines = split_text(output, '\n');
    let ghost all = split_on(output@, '\n').map_values(|l: Seq<char>| apple_tag(l));
    let ghost pred = |t: Seq<char>| t.len() > 0;
    let mut tags: Vec<String> = Vec::new();
    let mut i: usize = 0;
    while i < lines.len()
        invariant
            i <= lines@.len(),
            lines@.len() == split_on(output@, '\n').len(),
            forall|k: int| 0 <= k < lines@.len() ==> #[trigger] lines@[k]@ == split_on(output@, '\n')[k],
            all == split_on(output@, '\n').map_values(|l: Seq<char>| apple_tag(l)),
            pred == (|t: Seq<char>| t.len() > 0),
            tags@.map_values(|t: String| t@) == all.subrange(0, i as int).filter(pred),
        decreases lines@.len() - i,
    {
        let trimmed_line = trim_text(lines[i].as_str());
        let tag = strip_punctuation(trimmed_line.as_str());
        proof {
            assert(tag@ == all[i as int]);
            let pre = all.subrange(0, i as int);
            assert(all.subrange(0, i + 1) =~= pre.push(all[i as int]));
            pre.lemma_filter_push(all[i as int], pred);
        }
        if chars_of(tag.as_str()).len() > 0 {
            let ghost before = tags@;
            tags.push(tag);
            proof {
                assert(tags@.map_values(|t: String| t@) =~= before.map_values(|t: String| t@).push(all[i as int]));
            }
        }
        i = i + 1;
    }
    assert(all.subrange(0, all.len() as int) =~= all);
    tags
}

/// The tags a locale variable such as `LANGUAGE=zh_TW:en` or
/// `LANG=ja_JP.UTF-8` lists: its `:`-separated parts, each without the
/// encoding after a `.`.
pub open spec fn env_tags(value: Seq<char>) -> Seq<Seq<char>> {
    split_on(value, ':').map_values(|t: Seq<char>| split_on(t, '.')[0])
}

/// The tags of several lists, one list after the other.
pub open spec fn flatten_tags(lists: Seq<Seq<Seq<char>>>) -> Seq<Seq<char>>
    decreases lists.len(),
{
    if lists.len() == 0 {
        Seq::empty()
    } else {
        flatten_tags(lists.drop_last()) + lists.last()
    }
}

/// The language tags of the locale variables' values, in order.
pub fn env_language_tags(values: &Vec<String>) -> (tags: Vec<String>)
    ensures
        tags@.map_values(|t: String| t@) == flatten_tags(values@.map_values(|v: String| env_tags(v@))),
{
    let ghost per = values@.map_values(|v: String| env_tags(v@));
    let mut tags: Vec<String> = Vec::new();
    let mut i: usize = 0;
    while i < values.len()
        invariant
            i <= values@.len(),
            per == values@.map_values(|v: String| env_tags(v@)),
            tags@.map_values(|t: String| t@) == flatten_tags(per.subrange(0, i as int)),
        decreases values@.len() - i,
    {
        let parts = split_text(values[i].as_str(), ':');
        let ghost start = tags@.map_values(|t: String| t@);
        let ghost expected = env_tags(values@[i as int]@);
        let mut j: usize = 0;
        while j < parts.len()
            invariant
                j <= parts@.len(),
                parts@.len() == split_on(values@[i as int]@, ':').len(),
                forall|k: int| 0 <= k < parts@.len() ==> #[trigger] parts@[k]@ == split_on(values@[i as int]@, ':')[k],
                expected == env_tags(values@[i as int]@),
                tags@.map_values(|t: String| t@) == start + expected.subrange(0, j as int),
            decreases parts@.len() - j,
        {
            let pieces = split_text(parts[j].as_str(), '.');
            proof {
                lemma_split_nonempty_pub(parts@[j as int]@, '.');
            }
            let ghost before = tags@;
            tags.push(String::from_str(pieces[0].as_str()));
            proof {
                assert(tags@.map_values(|t: String| t@) =~= before.map_values(|t: String| t@).push(expected[j as int]));
                assert(start + expected.subrange(0, j + 1) =~= (start + expected.subrange(0, j as int)).push(expected[j as int]));
            }
            j = j + 1;
        }
        proof {
            assert(expected.subrange(0, expected.len() as int) =~= expected);
            let pre = per.subrange(0, i as int);
            assert(per.subrange(0, i + 1) =~= pre.push(per[i as int]));
            assert(pre.push(per[i as int]).drop_last() =~= pre);
        }
        i = i + 1;
    }
    assert(per.subrange(0, per.len() as int) =~= per);
    tags
}

} // verus!
