use homework_core::models::{parse_iso_datetime, HomeworkItem, Urgency};
use homework_core::report::{
    cache_loaded_text, fetch_log_text, fetch_status_text, reminder_text_at, stats_text,
};
use homework_core::pending::{
    HwStatsC, homework_stats_at, rows_and_stats, pending_order_at, pending_sorted_by_deadline_at, sort_by_deadline,
};

const NS: i128 = 1_000_000_000;

fn at(secs: i64) -> i128 {
    secs as i128 * NS
}

fn item(title: &str, deadline_secs: Option<i64>, submitted: bool) -> HomeworkItem {
    let deadline = deadline_secs.map(at);
    HomeworkItem {
        title: title.to_string(),
        course: "c".to_string(),
        deadline,
        platform: "p".to_string(),
        submitted,
        url: String::new(),
    }
}

const NOW: i64 = 1_700_000_000;
/// `NOW` in nanoseconds.
const T: i128 = NOW as i128 * NS;

#[test]
fn urgency_labels_and_colours() {
    assert_eq!(Urgency::Overdue.label(), "已过期");
    assert_eq!(Urgency::Urgent.label(), "6小时内");
    assert_eq!(Urgency::Soon.label(), "1天内");
    assert_eq!(Urgency::Normal.label(), "3天内");
    assert_eq!(Urgency::Relaxed.label(), "3天后");
    assert_eq!(Urgency::Unknown.label(), "无截止");
    assert_eq!(Urgency::Overdue.color(), "#ef5350");
    assert_eq!(Urgency::Unknown.color(), "#90a4ae");
    assert_eq!(Urgency::Urgent.bg_color(), "rgba(255,167,38,0.12)");
    assert_eq!(Urgency::Relaxed.bg_color(), "rgba(120,144,156,0.08)");
}

#[test]
fn urgency_thresholds() {
    assert_eq!(item("a", None, false).urgency_at(T), Urgency::Unknown);
    assert_eq!(item("a", Some(NOW - 1), false).urgency_at(T), Urgency::Overdue);
    assert_eq!(item("a", Some(NOW), false).urgency_at(T), Urgency::Urgent);
    assert_eq!(item("a", Some(NOW + 6 * 3600), false).urgency_at(T), Urgency::Urgent);
    assert_eq!(item("a", Some(NOW + 6 * 3600 + 1), false).urgency_at(T), Urgency::Soon);
    assert_eq!(item("a", Some(NOW + 86400), false).urgency_at(T), Urgency::Soon);
    assert_eq!(item("a", Some(NOW + 86401), false).urgency_at(T), Urgency::Normal);
    assert_eq!(item("a", Some(NOW + 3 * 86400), false).urgency_at(T), Urgency::Normal);
    assert_eq!(item("a", Some(NOW + 3 * 86400 + 1), false).urgency_at(T), Urgency::Relaxed);
}

#[test]
fn urgency_never_relaxes_as_time_passes() {
    let h = item("a", Some(NOW + 5 * 86400), false);
    let rank = |u: Urgency| match u {
        Urgency::Overdue => 0,
        Urgency::Urgent => 1,
        Urgency::Soon => 2,
        Urgency::Normal => 3,
        Urgency::Relaxed => 4,
        Urgency::Unknown => 5,
    };
    let mut last = 5;
    for step in 0..20 {
        let r = rank(h.urgency_at(T + at(step * 43200)));
        assert!(r <= last);
        last = r;
    }
}

#[test]
fn overdue_needs_a_past_deadline() {
    assert!(!item("a", None, false).is_overdue_at(T));
    assert!(!item("a", Some(NOW), false).is_overdue_at(T));
    assert!(item("a", Some(NOW - 1), false).is_overdue_at(T));
    assert!(!item("a", None, false).is_overdue());
}

#[test]
fn remain_text_forms() {
    assert_eq!(item("a", None, false).remain_text_at(T), None);
    assert_eq!(item("a", Some(NOW - 2 * 86400 - 5), false).remain_text_at(T).unwrap(), "已过期 2天");
    assert_eq!(item("a", Some(NOW - 10), false).remain_text_at(T).unwrap(), "已过期 0天");
    assert_eq!(item("a", Some(NOW + 3 * 86400 + 7), false).remain_text_at(T).unwrap(), "剩余 3天");
    assert_eq!(item("a", Some(NOW + 5 * 3600 + 7 * 60 + 9), false).remain_text_at(T).unwrap(), "剩余 5时7分");
    assert_eq!(item("a", Some(NOW), false).remain_text_at(T).unwrap(), "剩余 0时0分");
    assert!(item("a", Some(NOW), false).remain_text().is_some());
}

#[test]
fn deadline_display_and_key() {
    // 2024-03-05 14:30:00 on the naive calendar
    let d = chrono::NaiveDate::from_ymd_opt(2024, 3, 5).unwrap().and_hms_opt(14, 30, 0).unwrap();
    let secs = d.and_utc().timestamp();
    assert_eq!(item("a", Some(secs), false).deadline_display(), "2024-03-05 14:30");
    assert_eq!(item("a", None, false).deadline_display(), "无截止时间");
    assert_eq!(item("a", Some(secs), false).deadline_sort_key(), at(secs));
    let latest = chrono::NaiveDateTime::MAX.and_utc();
    assert_eq!(
        item("a", None, false).deadline_sort_key(),
        at(latest.timestamp()) + latest.timestamp_subsec_nanos() as i128
    );
}

#[test]
fn parse_iso_datetime_forms() {
    let d = chrono::NaiveDate::from_ymd_opt(2024, 3, 5).unwrap().and_hms_opt(14, 30, 0).unwrap();
    let secs = d.and_utc().timestamp();
    assert_eq!(parse_iso_datetime("2024-03-05T14:30:00+08:00"), Some(at(secs)));
    assert_eq!(parse_iso_datetime("2024-03-05T14:30:00"), Some(at(secs)));
    assert_eq!(parse_iso_datetime("2024-03-05T14:30:00.250"), Some(at(secs) + 250_000_000));
    assert_eq!(parse_iso_datetime("2024-03-05 14:30:00"), Some(at(secs)));
    assert_eq!(parse_iso_datetime("March 5"), None);
}

#[test]
fn pending_list_is_stable_and_filtered() {
    let items = vec![
        item("late", Some(NOW + 500), false),
        item("none1", None, false),
        item("done", Some(NOW + 10), true),
        item("early", Some(NOW + 100), false),
        item("over", Some(NOW - 100), false),
        item("tie", Some(NOW + 500), false),
        item("none2", None, false),
    ];
    assert_eq!(pending_order_at(&items, T), vec![3, 0, 5, 1, 6]);
    let titles: Vec<&str> = pending_sorted_by_deadline_at(&items, T).iter().map(|h| h.title.as_str()).collect();
    assert_eq!(titles, vec!["early", "late", "tie", "none1", "none2"]);
    let s = homework_stats_at(&items, T);
    assert_eq!((s.total, s.pending, s.urgent, s.done), (7, 5, 3, 1));
}

#[test]
fn sort_by_deadline_is_stable() {
    let items = vec![
        item("b", Some(20), false),
        item("n", None, true),
        item("a", Some(10), false),
        item("b2", Some(20), true),
    ];
    let titles: Vec<String> = sort_by_deadline(items).into_iter().map(|h| h.title).collect();
    assert_eq!(titles, vec!["a", "b", "b2", "n"]);
}

#[test]
fn display_rows_follow_the_pending_list() {
    let items = vec![
        item("later", Some(NOW + 5 * 86400), false),
        item("soon", Some(NOW + 3600), false),
        item("gone", Some(NOW - 1), false),
    ];
    let rows = homework_core::pending::display_rows_at(&items, T);
    assert_eq!(rows.len(), 2);
    assert_eq!(rows[0].title, "soon");
    assert_eq!(rows[0].urgency_label, "6小时内");
    assert_eq!(rows[0].color, "#ffa726");
    assert_eq!(rows[0].remain, "剩余 1时0分");
    assert_eq!(rows[1].remain, "剩余 5天");
    assert_eq!(rows[1].bg_color, "rgba(120,144,156,0.08)");
}

#[test]
fn reminder_lists_pending_items_earliest_first() {
    let mut later = item("later", Some(NOW + 2 * 86400), false);
    later.course = "数学".to_string();
    later.platform = "超星".to_string();
    let soon = item("soon", Some(NOW + 3600 + 120), false);
    let done = item("done", Some(NOW + 60), true);
    let text = reminder_text_at(&[later.clone(), done, soon.clone()], T);
    let rule = "=".repeat(70);
    let mut expected = format!("\n{rule}\n  作业提醒\n  待完成: 2 / 总计: 3\n{rule}\n\n");
    expected += &format!(
        "  [p] c\n    soon\n    截止: {}\n    (剩余 1时2分)\n    ⚠ 即将截止\n\n",
        soon.deadline_display()
    );
    expected += &format!(
        "  [超星] 数学\n    later\n    截止: {}\n    (剩余 2天)\n\n",
        later.deadline_display()
    );
    assert_eq!(text, expected);
}

#[test]
fn reminder_without_pending_items() {
    let text = reminder_text_at(&[item("done", None, true)], T);
    let rule = "=".repeat(70);
    assert_eq!(
        text,
        format!("\n{rule}\n  作业提醒\n  待完成: 0 / 总计: 1\n{rule}\n\n  没有待完成的作业！\n\n")
    );
}

#[test]
fn reminder_shows_no_remaining_time_without_deadline() {
    let text = reminder_text_at(&[item("open", None, false)], T);
    assert!(text.ends_with("  [p] c\n    open\n    截止: 无截止时间\n\n"));
}

#[test]
fn fetch_texts_for_the_window() {
    let s = HwStatsC { total: 5, pending: 3, urgent: 1, done: 2 };
    assert_eq!(stats_text(&s), "总计 5 / 待完成 3 / 紧急 1 / 已完成 2");
    assert_eq!(fetch_status_text(4, false), "获取完成 - 共 4 项作业");
    assert_eq!(
        fetch_status_text(0, true),
        "获取完成 - 共 0 项作业（长江雨课堂凭证已过期，请重新扫码）"
    );
    assert_eq!(
        fetch_log_text("line one\nline two\n\n", &s),
        "line one\nline two\n\n总计 5 / 待完成 3 / 紧急 1 / 已完成 2"
    );
    assert_eq!(fetch_log_text(" \n\t", &s), "（无详细日志）\n\n总计 5 / 待完成 3 / 紧急 1 / 已完成 2");
}

#[test]
fn cache_loaded_status_line() {
    let d = chrono::NaiveDate::from_ymd_opt(2024, 3, 5).unwrap().and_hms_opt(14, 30, 59).unwrap();
    let secs = d.and_utc().timestamp();
    assert_eq!(cache_loaded_text(at(secs) + 999_999_999).unwrap(), "已加载缓存（03-05 14:30）");
    assert!(cache_loaded_text(at(i64::MAX)).is_none());
}

#[test]
fn rows_and_counts_agree() {
    let items = vec![item("a", None, false), item("b", None, true), item("c", Some(i64::MAX - 1), false)];
    let (rows, stats) = rows_and_stats(&items);
    assert_eq!(rows.len() as i32, stats.pending);
    assert_eq!(stats.total, 3);
    assert_eq!(stats.done, 1);
    assert_eq!(stats.pending, 2);
}

#[test]
fn parts_of_a_second_count() {
    let half = T + 500_000_000;
    let h = item("a", Some(NOW), false);
    assert!(h.is_overdue_at(half));
    assert_eq!(h.urgency_at(half), Urgency::Overdue);
    assert_eq!(h.remain_text_at(half).unwrap(), "已过期 0天");
    let later = item("b", Some(NOW + 3 * 86400), false);
    assert_eq!(later.remain_text_at(half).unwrap(), "剩余 2天");
    assert_eq!(later.urgency_at(half), Urgency::Normal);
    let soon = item("c", Some(NOW + 60), false);
    assert_eq!(soon.remain_text_at(half).unwrap(), "剩余 0时0分");
}
