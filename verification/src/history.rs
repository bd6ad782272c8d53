//! How history is listed and kept: fixed pages, text search, the filters of
//! the file history, retention, and the store's version requirement.

use vstd::prelude::*;
use crate::error::AppError;
use crate::model::{
    ClipboardHistoryPage, ClipboardItemView, HistoryRetention, TransferHistoryFilter, TransferState,
};
use crate::primitives::{MAX_TIMESTAMP_MS, MIN_TIMESTAMP_MS};
use crate::text::{
    chars_of, concat3, contains_chars, contains_seq, parse_u32, parsed_unsigned, string_from_chars,
    to_lowercase, trim_text, trimmed, unicode_lowercase,
};

verus! {

/// The largest page a listing returns.
pub const MAX_PAGE_SIZE: usize = 2000;

/// One page of a listing: its number (from 1), its size, how many pages
/// there are, and how many items come before it.
#[derive(Debug, Clone, Copy, PartialEq, Eq)]
pub struct PageWindow {
    pub page: usize,
    pub page_size: usize,
    pub total_pages: usize,
    pub offset: usize,
}

/// The page size actually used: between 1 and the maximum.
pub open spec fn clamped_page_size(page_size: int) -> int {
    if page_size < 1 {
        1
    } else if page_size > MAX_PAGE_SIZE {
        MAX_PAGE_SIZE as int
    } else {
        page_size
    }
}

/// How many pages `total` items fill (at least one).
pub open spec fn page_count(total: int, page_size: int) -> int {
    let pages = (total + page_size - 1) / page_size;
    if pages < 1 {
        1
    } else {
        pages
    }
}

/// The page shown: the requested one, moved into `1..=total_pages`.
pub open spec fn shown_page(page: int, total_pages: int) -> int {
    if page < 1 {
        1
    } else if page > total_pages {
        total_pages
    } else {
        page
    }
}

/// Where a requested page of `total_items` items lies.
pub fn page_window(total_items: usize, page: usize, page_size: usize) -> (w: PageWindow)
    ensures
        w.page_size == clamped_page_size(page_size as int),
        w.total_pages == page_count(total_items as int, w.page_size as int),
        w.page == shown_page(page as int, w.total_pages as int),
        w.offset == (w.page - 1) * w.page_size,
        1 <= w.page <= w.total_pages,
        total_items > 0 ==> w.offset < total_items,
        total_items == 0 ==> w.offset == 0,
{
    let size: usize = if page_size < 1 {
        1
    } else if page_size > MAX_PAGE_SIZE {
        MAX_PAGE_SIZE
    } else {
        page_size
    };
    let whole: usize = total_items / size;
    let pages_raw: usize = if total_items % size == 0 {
        whole
    } else {
        assert(whole < total_items) by (nonlinear_arith)
            requires
                size >= 1,
                total_items % size != 0,
                whole == total_items / size,
        {
            if size == 1 {
                assert(total_items % 1 == 0);
            }
        }
        whole + 1
    };
    proof {
        let t = total_items as int;
        let z = size as int;
        assert(pages_raw == (t + z - 1) / z) by (nonlinear_arith)
            requires
                z >= 1,
                pages_raw == t / z + (if t % z == 0 { 0int } else { 1int }),

                t >= 0,
        {
            let q = t / z;
            let r = t % z;
            assert(t == q * z + r);
            if r == 0 {
                assert(t + z - 1 == q * z + (z - 1));
            } else {
                assert(t + z - 1 == (q + 1) * z + (r - 1));
            }
        }
    }
    let total_pages: usize = if pages_raw < 1 { 1 } else { pages_raw };
    let shown: usize = if page < 1 {
        1
    } else if page > total_pages {
        total_pages
    } else {
        page
    };
    proof {
        let t = total_items as int;
        let z = size as int;
        let p = shown as int;
        assert((p - 1) * z <= t) by (nonlinear_arith)
            requires
                z >= 1,
                1 <= p,
                p <= (if (t + z - 1) / z < 1 { 1 } else { (t + z - 1) / z }),
                t >= 0,
        {
            if p > 1 {
                assert(p - 1 <= (t + z - 1) / z - 1);
                assert(((t + z - 1) / z) * z <= t + z - 1);
                assert((p - 1) * z <= ((t + z - 1) / z - 1) * z);
            }
        }
        assert(t > 0 ==> (p - 1) * z < t) by (nonlinear_arith)
            requires
                z >= 1,
                1 <= p,
                p <= (if (t + z - 1) / z < 1 { 1 } else { (t + z - 1) / z }),
                t >= 0,
        {
            if t > 0 && p > 1 {
                assert(p - 1 <= (t + z - 1) / z - 1);
                assert(((t + z - 1) / z) * z <= t + z - 1);
                assert((p - 1) * z <= ((t + z - 1) / z - 1) * z);
            }
        }
        assert(t == 0 ==> p == 1);
    }
    let offset = (shown - 1) * size;
    PageWindow { page: shown, page_size: size, total_pages, offset }
}

/// The page of `items` (already in display order) that `page_window` picks.
pub fn paginate_clipboard(items: Vec<ClipboardItemView>, page: usize, page_size: usize) -> (p:
    ClipboardHistoryPage)
    ensures
        ({
            let w = page_window_spec(items@.len() as int, page as int, page_size as int);
            &&& p.page == w.0
            &&& p.page_size == w.1
            &&& p.total_pages == w.2
            &&& p.total_items == items@.len()
            &&& p.items@ == items@.subrange(
                w.3,
                if w.3 + w.1 < items@.len() {
                    w.3 + w.1
                } else {
                    items@.len() as int
                },
            )
        }),
{
    let total = items.len();
    let w = page_window(total, page, page_size);
    let end: usize = if total - w.offset > w.page_size { w.offset + w.page_size } else { total };
    let mut rest = items;
    let ghost given = rest@;
    let mut kept: Vec<ClipboardItemView> = Vec::new();
    let mut i: usize = 0;
    while i < end
        invariant
            i <= end <= total,
            given.len() == total,
            w.offset <= total,
            rest@ == given.subrange(i as int, total as int),
            i <= w.offset ==> kept@.len() == 0,
            i > w.offset ==> kept@ == given.subrange(w.offset as int, i as int),
        decreases end - i,
    {
        let item = rest.remove(0);
        proof {
            assert(item == given[i as int]);
        }
        if i >= w.offset {
            kept.push(item);
            proof {
                assert(kept@ =~= given.subrange(w.offset as int, i + 1));
            }
        }
        i = i + 1;
        proof {
            assert(rest@ =~= given.subrange(i as int, total as int));
        }
    }
    proof {
        if end <= w.offset {
            assert(given.subrange(w.offset as int, end as int) =~= Seq::<ClipboardItemView>::empty());
        }
    }
    ClipboardHistoryPage { items: kept, page: w.page, page_size: w.page_size, total_items: total, total_pages: w.total_pages }
}

/// The window of `page_window` as numbers: page, page size, pages, offset.
pub open spec fn page_window_spec(total: int, page: int, page_size: int) -> (int, int, int, int) {
    let z = clamped_page_size(page_size);
    let n = page_count(total, z);
    let p = shown_page(page, n);
    (p, z, n, (p - 1) * z)
}

/// The search text a query stands for: trimmed and lowercased, or none
/// when nothing is left.
pub open spec fn normalized_query_spec(query: Option<Seq<char>>) -> Option<Seq<char>> {
    match query {
        Some(q) => if trimmed(q).len() > 0 {
            Some(unicode_lowercase(trimmed(q)))
        } else {
            None
        },
        None => None,
    }
}

pub open spec fn opt_view(s: Option<&str>) -> Option<Seq<char>> {
    match s {
        Some(t) => Some(t@),
        None => None,
    }
}

/// The search text of a query.
pub fn normalized_query(query: Option<&str>) -> (r: Option<String>)
    ensures
        match r {
            Some(s) => normalized_query_spec(opt_view(query)) == Some(s@),
            None => normalized_query_spec(opt_view(query)) is None,
        },
{
    match query {
        Some(q) => {
            let t = trim_text(q);
            if chars_of(t.as_str()).len() == 0 {
                None
            } else {
                Some(to_lowercase(t.as_str()))
            }
        },
        None => None,
    }
}

/// A clipboard item matches a search when its lowercased text contains it.
pub open spec fn item_matches(item: ClipboardItemView, query: Seq<char>) -> bool {
    contains_seq(unicode_lowercase(item.content@), query)
}

/// Search ignores letter case: two items whose texts are the same once
/// lowercased match the same searches, and an item matches every search
/// its lowercased text contains.
pub proof fn lemma_search_ignores_case(a: ClipboardItemView, b: ClipboardItemView, query: Seq<char>)
    requires
        unicode_lowercase(a.content@) == unicode_lowercase(b.content@),
    ensures
        item_matches(a, query) == item_matches(b, query),
        contains_seq(unicode_lowercase(a.content@), query) ==> item_matches(a, query),
        !contains_seq(unicode_lowercase(a.content@), query) ==> !item_matches(a, query),
{
}

/// The items that match a search (already normalized), in order.
pub fn filter_clipboard(items: Vec<ClipboardItemView>, query: &str) -> (matching: Vec<ClipboardItemView>)
    ensures
        matching@ == items@.filter(|item: ClipboardItemView| item_matches(item, query@)),
{
    let ghost given = items@;
    let ghost pred = |item: ClipboardItemView| item_matches(item, query@);
    let needle = chars_of(query);
    let mut rest = items;
    let mut matching: Vec<ClipboardItemView> = Vec::new();
    let ghost mut taken: int = 0;
    assert(given.subrange(0, 0) =~= Seq::<ClipboardItemView>::empty());
    assert(given.subrange(0, given.len() as int) =~= given);
    while rest.len() > 0
        invariant
            0 <= taken <= given.len(),
            needle@ == query@,
            rest@ == given.subrange(taken, given.len() as int),
            matching@ == given.subrange(0, taken).filter(pred),
            pred == (|item: ClipboardItemView| item_matches(item, query@)),
        decreases rest@.len(),
    {
        let item = rest.remove(0);
        let lower = to_lowercase(item.content.as_str());
        let hay = chars_of(lower.as_str());
        let keep = contains_chars(hay.as_slice(), needle.as_slice());
        proof {
            assert(item == given[taken]);
            let pre = given.subrange(0, taken);
            assert(given.subrange(0, taken + 1) =~= pre.push(item));
            pre.lemma_filter_push(item, pred);
        }
        if keep {
            matching.push(item);
        }
        proof {
            taken = taken + 1;
            assert(rest@ =~= given.subrange(taken, given.len() as int));
        }
    }
    proof {
        assert(given.subrange(0, taken) =~= given);
    }
    matching
}

/// A text with `\`, `%` and `_` escaped by `\`, for a SQL `LIKE` pattern.
pub open spec fn like_escaped(s: Seq<char>) -> Seq<char>
    decreases s.len(),
{
    if s.len() == 0 {
        Seq::empty()
    } else {
        let c = s.last();
        let tail = if c == '\\' || c == '%' || c == '_' {
            seq!['\\', c]
        } else {
            seq![c]
        };
        like_escaped(s.drop_last()) + tail
    }
}

/// Escapes a search text for a SQL `LIKE` pattern with `\` as escape.
pub fn escape_like_pattern(value: &str) -> (escaped: String)
    ensures
        escaped@ == like_escaped(value@),
{
    let chars = chars_of(value);
    let mut out: Vec<char> = Vec::new();
    let mut i: usize = 0;
    while i < chars.len()
        invariant
            i <= chars@.len(),
            out@ == like_escaped(chars@.subrange(0, i as int)),
        decreases chars@.len() - i,
    {
        let c = chars[i];
        proof {
            let next = chars@.subrange(0, i + 1);
            assert(next.drop_last() =~= chars@.subrange(0, i as int));
            assert(next.last() == c);
        }
        if c == '\\' || c == '%' || c == '_' {
            out.push('\\');
        }
        out.push(c);
        i = i + 1;
        proof {
            assert(out@ =~= like_escaped(chars@.subrange(0, i as int)));
        }
    }
    assert(chars@.subrange(0, chars@.len() as int) =~= chars@);
    string_from_chars(out.as_slice())
}

/// The conditions a file-history listing selects by, in SQL over the stored
/// JSON state, and the text parameter of the search condition.
pub struct TransferQuery {
    pub where_clause: String,
    pub search_pattern: Option<String>,
}

pub open spec fn search_condition() -> Seq<char> {
    "LOWER(CAST(json_extract(state_json, '$.fileName') AS TEXT)) LIKE ? ESCAPE '\\'"@
}

pub open spec fn favorites_condition() -> Seq<char> {
    "COALESCE(json_extract(state_json, '$.pinned'), 0) = 1"@
}

/// The condition a history filter adds, if any.
pub open spec fn filter_condition(filter: TransferHistoryFilter) -> Option<Seq<char>> {
    match filter {
        TransferHistoryFilter::All => None,
        TransferHistoryFilter::Sending => Some("json_extract(state_json, '$.direction') = 'sending'"@),
        TransferHistoryFilter::Receiving => Some("json_extract(state_json, '$.direction') = 'receiving'"@),
        TransferHistoryFilter::Active => Some(
            "json_extract(state_json, '$.state') IN ('queued', 'transferring', 'verifying')"@,
        ),
        TransferHistoryFilter::Failed => Some(
            "json_extract(state_json, '$.state') IN ('failed', 'waitingForDevice')"@,
        ),
    }
}

/// The name a transfer state is stored under.
pub open spec fn state_text(state: TransferState) -> Seq<char> {
    match state {
        TransferState::Queued => "queued"@,
        TransferState::Transferring => "transferring"@,
        TransferState::Verifying => "verifying"@,
        TransferState::Completed => "completed"@,
        TransferState::Failed => "failed"@,
        TransferState::Cancelled => "cancelled"@,
    }
}

/// The earlier stored name of the failed state.
pub open spec fn legacy_failed_text() -> Seq<char> {
    "waitingForDevice"@
}

/// Stored state names, quoted and separated by commas.
pub open spec fn quoted_names(names: Seq<Seq<char>>) -> Seq<char>
    decreases names.len(),
{
    if names.len() == 0 {
        Seq::empty()
    } else if names.len() == 1 {
        "'"@ + names[0] + "'"@
    } else {
        quoted_names(names.drop_last()) + ", '"@ + names.last() + "'"@
    }
}

/// The condition that a transfer's stored state is one of `names`.
pub open spec fn state_among(names: Seq<Seq<char>>) -> Seq<char> {
    "json_extract(state_json, '$.state') IN ("@ + quoted_names(names) + ")"@
}

/// The Active filter lists exactly the transfers still under way (queued,
/// transferring or verifying), and the Failed filter those that failed,
/// under either name the failed state is stored under.
pub proof fn lemma_filters_select_states()
    ensures
        filter_condition(TransferHistoryFilter::Active) == Some(
            state_among(
                seq![
                    state_text(TransferState::Queued),
                    state_text(TransferState::Transferring),
                    state_text(TransferState::Verifying),
                ],
            ),
        ),
        filter_condition(TransferHistoryFilter::Failed) == Some(
            state_among(seq![state_text(TransferState::Failed), legacy_failed_text()]),
        ),
{
    reveal_strlit("json_extract(state_json, '$.state') IN ('queued', 'transferring', 'verifying')");
    reveal_strlit("json_extract(state_json, '$.state') IN ('failed', 'waitingForDevice')");
    reveal_strlit("json_extract(state_json, '$.state') IN (");
    reveal_strlit(")");
    reveal_strlit("'");
    reveal_strlit(", '");
    reveal_strlit("queued");
    reveal_strlit("transferring");
    reveal_strlit("verifying");
    reveal_strlit("failed");
    reveal_strlit("waitingForDevice");
    reveal_with_fuel(quoted_names, 3);
    let active = seq![
        state_text(TransferState::Queued),
        state_text(TransferState::Transferring),
        state_text(TransferState::Verifying),
    ];
    let failed = seq![state_text(TransferState::Failed), legacy_failed_text()];
    assert(active.drop_last().drop_last() =~= seq!["queued"@]);
    assert(active.drop_last() =~= seq!["queued"@, "transferring"@]);
    assert(failed.drop_last() =~= seq!["failed"@]);
    assert(state_among(active) =~= "json_extract(state_json, '$.state') IN ('queued', 'transferring', 'verifying')"@);
    assert(state_among(failed) =~= "json_extract(state_json, '$.state') IN ('failed', 'waitingForDevice')"@);
}

/// The conditions of a listing, in order.
pub open spec fn transfer_conditions(
    searching: bool,
    favorites_only: bool,
    filter: TransferHistoryFilter,
) -> Seq<Seq<char>> {
    let a = if searching { seq![search_condition()] } else { Seq::empty() };
    let b = if favorites_only { seq![favorites_condition()] } else { Seq::empty() };
    let c = match filter_condition(filter) {
        Some(f) => seq![f],
        None => Seq::empty(),
    };
    a + b + c
}

/// Conditions joined by ` AND `.
pub open spec fn joined(conditions: Seq<Seq<char>>) -> Seq<char>
    decreases conditions.len(),
{
    if conditions.len() == 0 {
        Seq::empty()
    } else if conditions.len() == 1 {
        conditions[0]
    } else {
        joined(conditions.drop_last()) + " AND "@ + conditions.last()
    }
}

/// ` WHERE ` and the joined conditions, or nothing without conditions.
pub open spec fn where_clause_of(conditions: Seq<Seq<char>>) -> Seq<char> {
    if conditions.len() == 0 {
        Seq::empty()
    } else {
        " WHERE "@ + joined(conditions)
    }
}

fn append_condition(clause: &mut String, count: &mut usize, condition: &str)
    requires
        *old(count) < 3,
    ensures
        *final(count) == *old(count) + 1,
        *old(count) == 0 ==> final(clause)@ == " WHERE "@ + condition@,
        *old(count) > 0 ==> final(clause)@ == old(clause)@ + " AND "@ + condition@,
{
    proof {
        reveal_strlit(" WHERE ");
        reveal_strlit(" AND ");
    }
    if *count == 0 {
        *clause = concat3(" WHERE ", condition, "");
        proof {
            reveal_strlit("");
        }
        assert(clause@ =~= " WHERE "@ + condition@);
    } else {
        *clause = concat3(clause.as_str(), " AND ", condition);
    }
    *count = *count + 1;
}

/// The selection of a file-history listing: the search on the file name
/// (already normalized), favorites only, and the filter, in that order.
pub fn transfer_query(search: Option<&str>, favorites_only: bool, filter: TransferHistoryFilter) -> (q:
    TransferQuery)
    ensures
        q.where_clause@ == where_clause_of(transfer_conditions(search is Some, favorites_only, filter)),
        match search {
            Some(s) => q.search_pattern matches Some(p) && p@ == seq!['%'] + like_escaped(s@) + seq!['%'],
            None => q.search_pattern is None,
        },
{
    let mut clause = String::new();
    let mut count: usize = 0;
    let ghost mut conds: Seq<Seq<char>> = Seq::empty();
    let mut pattern: Option<String> = None;
    if let Some(s) = search {
        append_condition(
            &mut clause,
            &mut count,
            "LOWER(CAST(json_extract(state_json, '$.fileName') AS TEXT)) LIKE ? ESCAPE '\\'",
        );
        proof {
            conds = conds.push(search_condition());
        }
        let escaped = escape_like_pattern(s);
        proof {
            reveal_strlit("%");
        }
        let p = concat3("%", escaped.as_str(), "%");
        pattern = Some(p);
    }
    assert(count == conds.len() && (count == 0 ==> clause@.len() == 0) && (count > 0 ==> clause@
        == " WHERE "@ + joined(conds)));
    if favorites_only {
        append_condition(&mut clause, &mut count, "COALESCE(json_extract(state_json, '$.pinned'), 0) = 1");
        proof {
            let before = conds;
            conds = conds.push(favorites_condition());
            assert(conds.drop_last() =~= before);
        }
    }
    assert(count == conds.len() && (count > 0 ==> clause@ == " WHERE "@ + joined(conds)));
    let condition: Option<&str> = match filter {
        TransferHistoryFilter::All => None,
        TransferHistoryFilter::Sending => Some("json_extract(state_json, '$.direction') = 'sending'"),
        TransferHistoryFilter::Receiving => Some("json_extract(state_json, '$.direction') = 'receiving'"),
        TransferHistoryFilter::Active => Some(
            "json_extract(state_json, '$.state') IN ('queued', 'transferring', 'verifying')",
        ),
        TransferHistoryFilter::Failed => Some(
            "json_extract(state_json, '$.state') IN ('failed', 'waitingForDevice')",
        ),
    };
    if let Some(c) = condition {
        append_condition(&mut clause, &mut count, c);
        proof {
            let before = conds;
            conds = conds.push(c@);
            assert(conds.drop_last() =~= before);
        }
    }
    proof {
        let expected = transfer_conditions(search is Some, favorites_only, filter);
        assert(conds =~= expected);
        if count == 0 {
            assert(clause@ =~= Seq::<char>::empty());
        }
    }
    TransferQuery { where_clause: clause, search_pattern: pattern }
}

/// A day, in milliseconds.
pub const DAY_MS: i64 = 86400000;

/// The creation time before which unpinned clipboard items are removed, if
/// any: now when history is disabled, one, seven or thirty days ago, or
/// none when history is kept forever.
pub fn retention_cutoff(retention: HistoryRetention, now_ms: i64) -> (cutoff: Option<i64>)
    requires
        MIN_TIMESTAMP_MS + 30 * DAY_MS <= now_ms <= MAX_TIMESTAMP_MS,
    ensures
        cutoff == (match retention {
            HistoryRetention::Disabled => Some(now_ms),
            HistoryRetention::OneDay => Some((now_ms - DAY_MS) as i64),
            HistoryRetention::SevenDays => Some((now_ms - 7 * DAY_MS) as i64),
            HistoryRetention::ThirtyDays => Some((now_ms - 30 * DAY_MS) as i64),
            HistoryRetention::Forever => None::<i64>,
        }),
{
    match retention {
        HistoryRetention::Disabled => Some(now_ms),
        HistoryRetention::OneDay => Some(now_ms - DAY_MS),
        HistoryRetention::SevenDays => Some(now_ms - 7 * DAY_MS),
        HistoryRetention::ThirtyDays => Some(now_ms - 30 * DAY_MS),
        HistoryRetention::Forever => None,
    }
}

/// The pieces of `s` between the separators `c`, in order.
pub open spec fn split_on(s: Seq<char>, c: char) -> Seq<Seq<char>>
    decreases s.len(),
{
    if s.len() == 0 {
        seq![Seq::<char>::empty()]
    } else {
        let p = split_on(s.drop_last(), c);
        if s.last() == c {
            p.push(Seq::<char>::empty())
        } else {
            p.update(p.len() - 1, p.last().push(s.last()))
        }
    }
}

proof fn lemma_split_nonempty(s: Seq<char>, c: char)
    ensures
        split_on(s, c).len() >= 1,
    decreases s.len(),
{
    if s.len() > 0 {
        lemma_split_nonempty(s.drop_last(), c);
    }
}

/// A text splits into at least one piece.
pub proof fn lemma_split_nonempty_pub(s: Seq<char>, c: char)
    ensures
        split_on(s, c).len() >= 1,
{
    lemma_split_nonempty(s, c);
}

/// The pieces of a text between the separators `c`.
pub fn split_text(s: &str, c: char) -> (pieces: Vec<String>)
    ensures
        pieces@.len() == split_on(s@, c).len(),
        forall|i: int| 0 <= i < pieces@.len() ==> #[trigger] pieces@[i]@ == split_on(s@, c)[i],
{
    let chars = chars_of(s);
    let mut done: Vec<String> = Vec::new();
    let mut current: Vec<char> = Vec::new();
    let mut i: usize = 0;
    while i < chars.len()
        invariant
            i <= chars@.len(),
            done@.len() + 1 == split_on(chars@.subrange(0, i as int), c).len(),
            forall|k: int| 0 <= k < done@.len() ==> #[trigger] done@[k]@ == split_on(chars@.subrange(0, i as int), c)[k],
            current@ == split_on(chars@.subrange(0, i as int), c).last(),
        decreases chars@.len() - i,
    {
        let x = chars[i];
        proof {
            let next = chars@.subrange(0, i + 1);
            assert(next.drop_last() =~= chars@.subrange(0, i as int));
            assert(next.last() == x);
            lemma_split_nonempty(chars@.subrange(0, i as int), c);
        }
        if x == c {
            done.push(string_from_chars(current.as_slice()));
            current = Vec::new();
        } else {
            current.push(x);
        }
        i = i + 1;
    }
    done.push(string_from_chars(current.as_slice()));
    assert(chars@.subrange(0, chars@.len() as int) =~= chars@);
    done
}

/// The least SQLite version the store works with.
pub const MIN_SQLITE_MAJOR: u32 = 3;
pub const MIN_SQLITE_MINOR: u32 = 51;
pub const MIN_SQLITE_PATCH: u32 = 3;

/// A version component as read: its number, or 0 when it is missing or is
/// not a number that fits.
pub open spec fn version_component(pieces: Seq<Seq<char>>, k: int) -> int {
    if k < pieces.len() {
        match parsed_unsigned(pieces[k]) {
            Some(v) => if v <= u32::MAX {
                v as int
            } else {
                0
            },
            None => 0,
        }
    } else {
        0
    }
}

/// The version `version` names is at least the required one, comparing
/// major, minor and patch in turn.
pub open spec fn version_supported(version: Seq<char>) -> bool {
    let p = split_on(version, '.');
    let a = version_component(p, 0);
    let b = version_component(p, 1);
    let c = version_component(p, 2);
    ||| a > MIN_SQLITE_MAJOR
    ||| a == MIN_SQLITE_MAJOR && b > MIN_SQLITE_MINOR
    ||| a == MIN_SQLITE_MAJOR && b == MIN_SQLITE_MINOR && c >= MIN_SQLITE_PATCH
}

fn component(pieces: &Vec<String>, k: usize) -> (v: u32)
    ensures
        v == version_component(pieces@.map_values(|p: String| p@), k as int),
{
    if k < pieces.len() {
        match parse_u32(pieces[k].as_str()) {
            Some(v) => v,
            None => 0,
        }
    } else {
        0
    }
}

/// Refuses an SQLite library older than the required version.
pub fn check_sqlite_version(version: &str) -> (r: Result<(), AppError>)
    ensures
        version_supported(version@) ==> r is Ok,
        !version_supported(version@) ==> (r matches Err(AppError::Storage(m)) && m@ == "SQLite "@
            + version@ + " is below the required 3.51.3"@),
{
    let pieces = split_text(version, '.');
    proof {
        assert(pieces@.map_values(|p: String| p@) =~= split_on(version@, '.'));
    }
    let a = component(&pieces, 0);
    let b = component(&pieces, 1);
    let c = component(&pieces, 2);
    let supported = a > MIN_SQLITE_MAJOR || (a == MIN_SQLITE_MAJOR && b > MIN_SQLITE_MINOR) || (a
        == MIN_SQLITE_MAJOR && b == MIN_SQLITE_MINOR && c >= MIN_SQLITE_PATCH);
    if supported {
        Ok(())
    } else {
        Err(AppError::Storage(concat3("SQLite ", version, " is below the required 3.51.3")))
    }
}

} // verus!
