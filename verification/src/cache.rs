//! The cache file: the last fetched items and when they were fetched.

use vstd::prelude::*;
use vstd::string::*;
use crate::json::{push_quoted, quoted};
use crate::config::bool_text;
use crate::models::{parse_iso_datetime, spec_parse_iso_datetime, HomeworkItem, HomeworkView};
use crate::time::{
    cache_format, chrono_format, chrono_representable, chrono_rfc3339_naive, format_naive, join_time,
    joined, now_rfc3339, opt_joined, parse_rfc3339_naive, second_of, split_nanos, subsec_of,
};

verus! {

/// One item as the cache file holds it: the deadline as text.
pub struct CacheEntry {
    pub title: String,
    pub course: String,
    pub deadline: Option<String>,
    pub platform: String,
    pub submitted: bool,
    pub url: String,
}

/// What a cache entry holds.
pub struct CacheEntryView {
    pub title: Seq<char>,
    pub course: Seq<char>,
    pub deadline: Option<Seq<char>>,
    pub platform: Seq<char>,
    pub submitted: bool,
    pub url: Seq<char>,
}

impl View for CacheEntry {
    type V = CacheEntryView;

    open spec fn view(&self) -> CacheEntryView {
        CacheEntryView {
            title: self.title@,
            course: self.course@,
            deadline: match self.deadline {
                Some(d) => Some(d@),
                None => None,
            },
            platform: self.platform@,
            submitted: self.submitted,
            url: self.url@,
        }
    }
}

pub open spec fn entries_view(es: Seq<CacheEntry>) -> Seq<CacheEntryView> {
    es.map_values(|e: CacheEntry| e@)
}

/// A deadline as the cache file holds it: chrono's `%Y-%m-%dT%H:%M:%S` text
/// (whole seconds), where chrono holds the time.
pub open spec fn cache_deadline_text(d: int) -> Option<Seq<char>> {
    if chrono_representable(second_of(d)) {
        chrono_format(second_of(d), subsec_of(d), cache_format())
    } else {
        None
    }
}

/// The cache entry of an item: its deadline in `%Y-%m-%dT%H:%M:%S`.
pub open spec fn entry_of(h: HomeworkView) -> CacheEntryView {
    CacheEntryView {
        title: h.title,
        course: h.course,
        deadline: match h.deadline {
            Some(d) => cache_deadline_text(d as int),
            None => None,
        },
        platform: h.platform,
        submitted: h.submitted,
        url: h.url,
    }
}

/// The item of a cache entry: its deadline read back with
/// `parse_iso_datetime`.
pub open spec fn item_of(e: CacheEntryView) -> HomeworkView {
    HomeworkView {
        title: e.title,
        course: e.course,
        deadline: match e.deadline {
            Some(t) => match spec_parse_iso_datetime(t) {
                Some(v) => Some(v as i128),
                None => None,
            },
            None => None,
        },
        platform: e.platform,
        submitted: e.submitted,
        url: e.url,
    }
}

/// The cache entries of a list of items.
pub open spec fn cache_entries_of(items: Seq<HomeworkItem>) -> Seq<CacheEntryView> {
    crate::models::items_view(items).map_values(|h: HomeworkView| entry_of(h))
}

/// The cache entries of the items.
pub fn cache_entries(items: &[HomeworkItem]) -> (r: Vec<CacheEntry>)
    ensures
        entries_view(r@) == crate::models::items_view(items@).map_values(|h: HomeworkView| entry_of(h)),
{
    let mut r: Vec<CacheEntry> = Vec::new();
    let mut k: usize = 0;
    while k < items.len()
        invariant
            k <= items@.len(),
            entries_view(r@) == crate::models::items_view(items@.take(k as int)).map_values(
                |h: HomeworkView| entry_of(h),
            ),
        decreases items@.len() - k,
    {
        let h = &items[k];
        let deadline = match h.deadline {
            Some(d) => match split_nanos(d) {
                Some((secs, sub)) => format_naive(secs, sub, "%Y-%m-%dT%H:%M:%S"),
                None => None,
            },
            None => None,
        };
        let e = CacheEntry {
            title: h.title.clone(),
            course: h.course.clone(),
            deadline,
            platform: h.platform.clone(),
            submitted: h.submitted,
            url: h.url.clone(),
        };
        assert(e@ == entry_of(h@));
        let ghost before = entries_view(r@);
        r.push(e);
        assert(entries_view(r@) =~= before.push(e@));
        assert(crate::models::items_view(items@.take(k + 1)) =~= crate::models::items_view(
            items@.take(k as int),
        ).push(h@));
        k += 1;
    }
    assert(items@.take(items@.len() as int) =~= items@);
    r
}

/// The items of cache entries.
pub fn items_from_cache(entries: &[CacheEntry]) -> (r: Vec<HomeworkItem>)
    ensures
        crate::models::items_view(r@) == entries_view(entries@).map_values(|e: CacheEntryView| item_of(e)),
{
    let mut r: Vec<HomeworkItem> = Vec::new();
    let mut k: usize = 0;
    while k < entries.len()
        invariant
            k <= entries@.len(),
            crate::models::items_view(r@) == entries_view(entries@.take(k as int)).map_values(
                |e: CacheEntryView| item_of(e),
            ),
        decreases entries@.len() - k,
    {
        let e = &entries[k];
        let deadline = match &e.deadline {
            Some(t) => parse_iso_datetime(t.as_str()),
            None => None,
        };
        let h = HomeworkItem {
            title: e.title.clone(),
            course: e.course.clone(),
            deadline,
            platform: e.platform.clone(),
            submitted: e.submitted,
            url: e.url.clone(),
        };
        assert(h@ == item_of(e@));
        let ghost before = crate::models::items_view(r@);
        r.push(h);
        assert(crate::models::items_view(r@) =~= before.push(h@));
        assert(entries_view(entries@.take(k + 1)) =~= entries_view(entries@.take(k as int)).push(e@));
        k += 1;
    }
    assert(entries@.take(entries@.len() as int) =~= entries@);
    r
}

/// The time of the cache's `updated_at` (RFC 3339, wall-clock time in its
/// offset).
pub fn cache_updated_at(text: &str) -> (r: Option<i128>)
    ensures
        r matches Some(v) ==> opt_joined(chrono_rfc3339_naive(text@)) == Some(v as int),
        r is None ==> chrono_rfc3339_naive(text@) is None,
{
    joined(parse_rfc3339_naive(text))
}

/// A JSON string or `null`.
pub open spec fn opt_quoted(s: Option<Seq<char>>) -> Seq<char> {
    match s {
        Some(t) => quoted(t),
        None => "null"@,
    }
}

/// One entry in the cache file's pretty form (inside the items array).
pub open spec fn entry_text(e: CacheEntryView) -> Seq<char> {
    "    {\n      \"title\": "@ + quoted(e.title) + ",\n      \"course\": "@ + quoted(e.course)
        + ",\n      \"deadline\": "@ + opt_quoted(e.deadline) + ",\n      \"platform\": "@ + quoted(
        e.platform,
    ) + ",\n      \"submitted\": "@ + bool_text(e.submitted) + ",\n      \"url\": "@ + quoted(e.url)
        + "\n    }"@
}

/// The entries, separated by `,\n`.
pub open spec fn entries_text(es: Seq<CacheEntryView>) -> Seq<char>
    decreases es.len(),
{
    if es.len() == 0 {
        Seq::empty()
    } else if es.len() == 1 {
        entry_text(es[0])
    } else {
        entries_text(es.drop_last()) + ",\n"@ + entry_text(es.last())
    }
}

/// The cache file's text: serde_json's pretty form, two spaces per level.
pub open spec fn cache_file_text(updated_at: Seq<char>, es: Seq<CacheEntryView>) -> Seq<char> {
    "{\n  \"updated_at\": "@ + quoted(updated_at) + ",\n  \"items\": "@ + if es.len() == 0 {
        "[]"@
    } else {
        "[\n"@ + entries_text(es) + "\n  ]"@
    } + "\n}"@
}

fn push_entry(out: &mut String, e: &CacheEntry)
    ensures
        final(out)@ == old(out)@ + entry_text(e@),
{
    let ghost start = out@;
    out.append("    {\n      \"title\": ");
    push_quoted(out, e.title.as_str());
    out.append(",\n      \"course\": ");
    push_quoted(out, e.course.as_str());
    out.append(",\n      \"deadline\": ");
    match &e.deadline {
        Some(d) => push_quoted(out, d.as_str()),
        None => out.append("null"),
    }
    out.append(",\n      \"platform\": ");
    push_quoted(out, e.platform.as_str());
    out.append(",\n      \"submitted\": ");
    if e.submitted {
        out.append("true");
    } else {
        out.append("false");
    }
    out.append(",\n      \"url\": ");
    push_quoted(out, e.url.as_str());
    out.append("\n    }");
    assert(out@ =~= start + entry_text(e@));
}

/// The cache file's text for the entries and the time of the fetch.
pub fn cache_text(updated_at: &str, entries: &[CacheEntry]) -> (r: String)
    ensures
        r@ == cache_file_text(updated_at@, entries_view(entries@)),
{
    let mut out = String::from_str("{\n  \"updated_at\": ");
    push_quoted(&mut out, updated_at);
    out.append(",\n  \"items\": ");
    let ghost head = out@;
    if entries.len() == 0 {
        out.append("[]");
    } else {
        out.append("[\n");
        let mut k: usize = 0;
        while k < entries.len()
            invariant
                k <= entries@.len(),
                entries@.len() > 0,
                out@ == head + "[\n"@ + entries_text(entries_view(entries@.take(k as int))),
            decreases entries@.len() - k,
        {
            assert(entries_view(entries@.take(k + 1)).drop_last() =~= entries_view(entries@.take(k as int)));
            assert(entries_view(entries@.take(k + 1)).last() == entries@[k as int]@);
            if k > 0 {
                out.append(",\n");
            }
            push_entry(&mut out, &entries[k]);
            k += 1;
            assert(out@ =~= head + "[\n"@ + entries_text(entries_view(entries@.take(k as int))));
        }
        assert(entries@.take(entries@.len() as int) =~= entries@);
        out.append("\n  ]");
    }
    out.append("\n}");
    assert(out@ =~= cache_file_text(updated_at@, entries_view(entries@)));
    out
}

/// The cache file's text for the items, stamped with the current time.
pub fn cache_text_now(items: &[HomeworkItem]) -> (r: String)
    ensures
        exists|stamp: Seq<char>|
            r@ == #[trigger] cache_file_text(stamp, cache_entries_of(items@)),
{
    let stamp = now_rfc3339();
    let es = cache_entries(items);
    let r = cache_text(stamp.as_str(), es.as_slice());
    assert(entries_view(es@) == cache_entries_of(items@));
    assert(r@ == cache_file_text(stamp@, cache_entries_of(items@)));
    r
}

/// Writing an item to the cache and reading it back keeps everything but the
/// deadline, which comes back as the deadline text read again.
pub proof fn lemma_cache_keeps_fields(h: HomeworkView)
    ensures
        item_of(entry_of(h)).title == h.title,
        item_of(entry_of(h)).course == h.course,
        item_of(entry_of(h)).platform == h.platform,
        item_of(entry_of(h)).submitted == h.submitted,
        item_of(entry_of(h)).url == h.url,
        (item_of(entry_of(h)).deadline is None) <== (h.deadline is None),
{
}

/// The deadline kept to its whole second, as the cache text holds it.
pub open spec fn whole_second(h: HomeworkView) -> HomeworkView {
    HomeworkView {
        deadline: match h.deadline {
            Some(d) => Some(join_time(second_of(d as int), 0) as i128),
            None => None,
        },
        ..h
    }
}

/// chrono reads the cache text of the deadline back as the same second (the
/// case for the four-digit years that `%Y` prints).
pub open spec fn deadline_reads_back(h: HomeworkView) -> bool {
    h.deadline matches Some(d) ==> (cache_deadline_text(d as int) matches Some(t)
        && spec_parse_iso_datetime(t) == Some(join_time(second_of(d as int), 0)))
}

/// Writing items to the cache and reading them back gives the same items, each
/// deadline kept to its whole second, wherever chrono reads each deadline's
/// text back as that second.
pub proof fn lemma_cache_round_trip(items: Seq<HomeworkItem>)
    requires
        forall|i: int| 0 <= i < items.len() ==> deadline_reads_back(#[trigger] items[i]@),
    ensures
        cache_entries_of(items).map_values(|e: CacheEntryView| item_of(e)) == crate::models::items_view(
            items,
        ).map_values(|h: HomeworkView| whole_second(h)),
{
    let back = cache_entries_of(items).map_values(|e: CacheEntryView| item_of(e));
    let iv = crate::models::items_view(items).map_values(|h: HomeworkView| whole_second(h));
    assert forall|i: int| 0 <= i < items.len() implies back[i] == iv[i] by {
        assert(deadline_reads_back(items[i]@));
        assert(iv[i] == whole_second(items[i]@));
        let h = items[i]@;
        match h.deadline {
            Some(d) => {
                let t = cache_deadline_text(d as int).unwrap();
                assert(spec_parse_iso_datetime(t) == Some(join_time(second_of(d as int), 0)));
            },
            None => {},
        }
    }
    assert(back =~= iv);
}

/// A JSON boolean literal.
pub open spec fn json_bool(b: bool) -> Seq<char> {
    if b {
        "true"@
    } else {
        "false"@
    }
}

/// Each entry's text ends with its `submitted` member holding the entry's
/// flag, then its `url` member holding its link.
pub proof fn lemma_entry_keeps_submitted(e: CacheEntryView)
    ensures
        exists|pre: Seq<char>|
            entry_text(e) == pre + "\"submitted\": "@ + json_bool(e.submitted) + ",\n      \"url\": "@
                + quoted(e.url) + "\n    }"@,
{
    let pre = "    {\n      \"title\": "@ + quoted(e.title) + ",\n      \"course\": "@ + quoted(e.course)
        + ",\n      \"deadline\": "@ + opt_quoted(e.deadline) + ",\n      \"platform\": "@ + quoted(
        e.platform,
    ) + ",\n      "@;
    assert(",\n      \"submitted\": "@ =~= ",\n      "@ + "\"submitted\": "@) by {
        reveal_strlit(",\n      \"submitted\": ");
        reveal_strlit(",\n      ");
        reveal_strlit("\"submitted\": ");
    }
    assert(entry_text(e) =~= pre + "\"submitted\": "@ + json_bool(e.submitted) + ",\n      \"url\": "@
        + quoted(e.url) + "\n    }"@);
}

/// The cache file holds the text of every entry, in order: the written
/// entry `i` is `entry_text(es[i])`, whose `submitted` member is the entry's
/// flag (`lemma_entry_keeps_submitted`).
pub proof fn lemma_file_holds_entries(stamp: Seq<char>, es: Seq<CacheEntryView>, i: int)
    requires
        0 <= i < es.len(),
    ensures
        exists|pre: Seq<char>, post: Seq<char>| cache_file_text(stamp, es) == pre + entry_text(es[i]) + post,
{
    lemma_entries_hold(es, i);
    let (pre, post) = choose|pre: Seq<char>, post: Seq<char>| entries_text(es) == pre + entry_text(es[i]) + post;
    let head = "{\n  \"updated_at\": "@ + quoted(stamp) + ",\n  \"items\": "@ + "[\n"@;
    let tail = "\n  ]"@ + "\n}"@;
    assert(cache_file_text(stamp, es) =~= (head + pre) + entry_text(es[i]) + (post + tail));
}

proof fn lemma_entries_hold(es: Seq<CacheEntryView>, i: int)
    requires
        0 <= i < es.len(),
    ensures
        exists|pre: Seq<char>, post: Seq<char>| entries_text(es) == pre + entry_text(es[i]) + post,
    decreases es.len(),
{
    if es.len() == 1 {
        assert(entries_text(es) =~= Seq::<char>::empty() + entry_text(es[i]) + Seq::<char>::empty());
    } else if i == es.len() - 1 {
        let pre = entries_text(es.drop_last()) + ",\n"@;
        assert(entries_text(es) =~= pre + entry_text(es[i]) + Seq::<char>::empty());
    } else {
        lemma_entries_hold(es.drop_last(), i);
        let (pre, post) = choose|pre: Seq<char>, post: Seq<char>|
            entries_text(es.drop_last()) == pre + entry_text(es.drop_last()[i]) + post;
        assert(es.drop_last()[i] == es[i]);
        assert(entries_text(es) =~= pre + entry_text(es[i]) + (post + ",\n"@ + entry_text(es.last())));
    }
}

} // verus!
