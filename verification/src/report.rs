//! The texts shown after a fetch: the reminder printed on the command line,
//! the status line and the log of the window, and the headline counts.

use vstd::prelude::*;
use vstd::string::*;
use crate::models::{spec_deadline_display, spec_remain_text, spec_urgency, HomeworkItem, Urgency};
use crate::pending::{display_rows_at, is_pending_order, row_shows, DisplayRow, HwStatsC};
use crate::text::{dec_int, dec_nat, fmt_i64, fmt_u64, trim, trim_end, trim_end_ws, trim_ws};
use crate::time::{
    chrono_format, chrono_representable, format_naive, now_naive_local, second_of, split_nanos,
    status_format, subsec_of,
};

verus! {

/// The rule above and below the reminder's header: seventy `=`.
pub open spec fn rule() -> Seq<char> {
    Seq::new(70, |i: int| '=')
}

/// The reminder's lines for one pending item at wall-clock time `now`:
/// platform and course, title, deadline, the remaining time where there is
/// one, a warning when it is urgent, and an empty line.
pub open spec fn item_block(h: HomeworkItem, now: int) -> Seq<char> {
    "  ["@ + h.platform@ + "] "@ + h.course@ + "\n"@ + "    "@ + h.title@ + "\n"@ + "    截止: "@
        + spec_deadline_display(h.deadline) + "\n"@ + match spec_remain_text(h.deadline, now) {
        Some(t) => "    ("@ + t + ")\n"@,
        None => Seq::empty(),
    } + if spec_urgency(h.deadline, now) == Urgency::Urgent {
        "    ⚠ 即将截止\n"@
    } else {
        Seq::empty()
    } + "\n"@
}

/// The blocks of the items at the positions `order`, in that order.
pub open spec fn item_blocks(items: Seq<HomeworkItem>, order: Seq<int>, now: int) -> Seq<char>
    decreases order.len(),
{
    if order.len() == 0 {
        Seq::empty()
    } else {
        item_blocks(items, order.drop_last(), now) + item_block(items[order.last()], now)
    }
}

/// The reminder's header: the number of pending items and of all items
/// between two rules.
pub open spec fn reminder_header(pending: nat, total: nat) -> Seq<char> {
    "\n"@ + rule() + "\n"@ + "  作业提醒\n"@ + "  待完成: "@ + dec_nat(pending) + " / 总计: "@
        + dec_nat(total) + "\n"@ + rule() + "\n\n"@
}

/// The reminder for the pending items at the positions `order`: the header,
/// then a block per item, or a line saying that nothing is pending.
pub open spec fn spec_reminder_text(items: Seq<HomeworkItem>, order: Seq<int>, now: int) -> Seq<
    char,
> {
    reminder_header(order.len(), items.len()) + if order.len() == 0 {
        "  没有待完成的作业！\n\n"@
    } else {
        item_blocks(items, order, now)
    }
}

/// A block as a shown row gives it.
pub open spec fn row_block(r: DisplayRow) -> Seq<char> {
    "  ["@ + r.platform@ + "] "@ + r.course@ + "\n"@ + "    "@ + r.title@ + "\n"@ + "    截止: "@
        + r.deadline@ + "\n"@ + (if r.remain@.len() > 0 {
        "    ("@ + r.remain@ + ")\n"@
    } else {
        Seq::empty()
    }) + (if r.urgency == Urgency::Urgent {
        "    ⚠ 即将截止\n"@
    } else {
        Seq::empty()
    }) + "\n"@
}

proof fn lemma_row_block(r: DisplayRow, h: HomeworkItem, now: int)
    requires
        row_shows(r, h, now),
    ensures
        row_block(r) == item_block(h, now),
{
    reveal_strlit("已过期 ");
    reveal_strlit("剩余 ");
    match spec_remain_text(h.deadline, now) {
        Some(t) => {
            assert(t.len() > 0);
        },
        None => {},
    }
}

/// Seventy `=`.
fn rule_line() -> (r: String)
    ensures
        r@ == rule(),
{
    let mut r = String::new();
    let mut i: usize = 0;
    while i < 70
        invariant
            i <= 70,
            r@ == Seq::new(i as nat, |j: int| '='),
        decreases 70 - i,
    {
        r.append("=");
        proof {
            reveal_strlit("=");
        }
        assert(r@ =~= Seq::new((i + 1) as nat, |j: int| '='));
        i += 1;
    }
    r
}

fn push_row_block(s: &mut String, r: &DisplayRow)
    ensures
        final(s)@ == old(s)@ + row_block(*r),
{
    s.append("  [");
    s.append(r.platform.as_str());
    s.append("] ");
    s.append(r.course.as_str());
    s.append("\n");
    s.append("    ");
    s.append(r.title.as_str());
    s.append("\n");
    s.append("    截止: ");
    s.append(r.deadline.as_str());
    s.append("\n");
    if !r.remain.as_str().is_empty() {
        s.append("    (");
        s.append(r.remain.as_str());
        s.append(")\n");
    }
    if r.urgency == Urgency::Urgent {
        s.append("    ⚠ 即将截止\n");
    }
    s.append("\n");
    assert(s@ =~= old(s)@ + row_block(*r));
}

/// The reminder printed on the command line for the items at wall-clock time
/// `now`: the header with the number of pending and of all items, then the
/// pending items, earliest deadline first.
pub fn reminder_text_at(items: &[HomeworkItem], now: i128) -> (r: String)
    ensures
        exists|order: Seq<int>|
            is_pending_order(items@, now as int, order) && r@ == spec_reminder_text(
                items@,
                order,
                now as int,
            ),
{
    let rows = display_rows_at(items, now);
    let ghost order = choose|order: Seq<int>|
        #![auto]
        is_pending_order(items@, now as int, order) && rows@.len() == order.len() && forall|i: int|
            0 <= i < order.len() ==> row_shows(rows@[i], items@[order[i]], now as int);
    let mut s = String::new();
    s.append("\n");
    let rl = rule_line();
    s.append(rl.as_str());
    s.append("\n");
    s.append("  作业提醒\n");
    s.append("  待完成: ");
    let p = fmt_u64(rows.len() as u64);
    s.append(p.as_str());
    s.append(" / 总计: ");
    let t = fmt_u64(items.len() as u64);
    s.append(t.as_str());
    s.append("\n");
    s.append(rl.as_str());
    s.append("\n\n");
    let ghost head = s@;
    assert(head =~= reminder_header(order.len(), items@.len()));
    if rows.len() == 0 {
        s.append("  没有待完成的作业！\n\n");
        return s;
    }
    let mut i: usize = 0;
    while i < rows.len()
        invariant
            i <= rows@.len(),
            rows@.len() == order.len(),
            forall|j: int|
                #![auto]
                0 <= j < order.len() ==> row_shows(rows@[j], items@[order[j]], now as int),
            s@ == head + item_blocks(items@, order.take(i as int), now as int),
        decreases rows@.len() - i,
    {
        push_row_block(&mut s, &rows[i]);
        proof {
            lemma_row_block(rows@[i as int], items@[order[i as int]], now as int);
            assert(order.take(i + 1).drop_last() =~= order.take(i as int));
            assert(order.take(i + 1).last() == order[i as int]);
            assert(s@ =~= head + item_blocks(items@, order.take(i + 1), now as int));
        }
        i += 1;
    }
    assert(order.take(order.len() as int) =~= order);
    s
}

/// The reminder for the items now.
pub fn reminder_text(items: &[HomeworkItem]) -> (r: String)
    ensures
        exists|now: i128, order: Seq<int>|
            is_pending_order(items@, now as int, order) && r@ == spec_reminder_text(
                items@,
                order,
                now as int,
            ),
{
    let now = now_naive_local();
    reminder_text_at(items, now)
}

/// The headline counts on one line.
pub open spec fn spec_stats_text(s: HwStatsC) -> Seq<char> {
    "总计 "@ + dec_int(s.total as int) + " / 待完成 "@ + dec_int(s.pending as int) + " / 紧急 "@
        + dec_int(s.urgent as int) + " / 已完成 "@ + dec_int(s.done as int)
}

/// The headline counts on one line.
pub fn stats_text(s: &HwStatsC) -> (r: String)
    ensures
        r@ == spec_stats_text(*s),
{
    let mut r = String::from_str("总计 ");
    let a = fmt_i64(s.total as i64);
    r.append(a.as_str());
    r.append(" / 待完成 ");
    let b = fmt_i64(s.pending as i64);
    r.append(b.as_str());
    r.append(" / 紧急 ");
    let c = fmt_i64(s.urgent as i64);
    r.append(c.as_str());
    r.append(" / 已完成 ");
    let d = fmt_i64(s.done as i64);
    r.append(d.as_str());
    r
}

/// The status line after a fetch of `count` items, with a request to scan
/// again when the Yuketang session has expired.
pub open spec fn spec_fetch_status_text(count: nat, yuketang_expired: bool) -> Seq<char> {
    "获取完成 - 共 "@ + dec_nat(count) + " 项作业"@ + if yuketang_expired {
        "（长江雨课堂凭证已过期，请重新扫码）"@
    } else {
        Seq::empty()
    }
}

/// The status line after a fetch of `count` items.
pub fn fetch_status_text(count: usize, yuketang_expired: bool) -> (r: String)
    ensures
        r@ == spec_fetch_status_text(count as nat, yuketang_expired),
{
    let mut r = String::from_str("获取完成 - 共 ");
    let n = fmt_u64(count as u64);
    r.append(n.as_str());
    r.append(" 项作业");
    if yuketang_expired {
        r.append("（长江雨课堂凭证已过期，请重新扫码）");
    }
    r
}

/// The log shown after a fetch: the captured log, or a note that there is
/// none where it is blank, without trailing white space; an empty line; the
/// headline counts.
pub open spec fn spec_fetch_log_text(log: Seq<char>, stats: HwStatsC) -> Seq<char> {
    trim_end_ws(if trim_ws(log).len() == 0 {
        "（无详细日志）"@
    } else {
        log
    }) + "\n\n"@ + spec_stats_text(stats)
}

/// The log shown after a fetch.
pub fn fetch_log_text(log: &str, stats: &HwStatsC) -> (r: String)
    ensures
        r@ == spec_fetch_log_text(log@, *stats),
{
    let t = trim(log);
    let mut r = if t.as_str().is_empty() {
        trim_end("（无详细日志）")
    } else {
        trim_end(log)
    };
    r.append("\n\n");
    let st = stats_text(stats);
    r.append(st.as_str());
    r
}

/// The status line after the cache was loaded: the month, day and time of
/// the fetch that wrote it; `None` where chrono cannot hold that time.
pub open spec fn spec_cache_loaded_text(updated_at: int) -> Option<Seq<char>> {
    if chrono_representable(second_of(updated_at)) {
        match chrono_format(second_of(updated_at), subsec_of(updated_at), status_format()) {
            Some(t) => Some("已加载缓存（"@ + t + "）"@),
            None => None,
        }
    } else {
        None
    }
}

/// The status line after the cache was loaded.
pub fn cache_loaded_text(updated_at: i128) -> (r: Option<String>)
    ensures
        r matches Some(s) ==> spec_cache_loaded_text(updated_at as int) == Some(s@),
        r is None ==> spec_cache_loaded_text(updated_at as int) is None,
{
    let (secs, sub) = match split_nanos(updated_at) {
        Some(p) => p,
        None => return None,
    };
    let t = format_naive(secs, sub, "%m-%d %H:%M");
    proof {
        reveal_strlit("%m-%d %H:%M");
    }
    match t {
        Some(t) => {
            let mut s = String::from_str("已加载缓存（");
            s.append(t.as_str());
            s.append("）");
            Some(s)
        },
        None => None,
    }
}

} // verus!
