//! Homework items, how close their deadlines are, and the pending list.

use vstd::prelude::*;
use vstd::string::*;
use crate::text::{dec_nat, fmt_u128};
use crate::time::{
    chrono_format, chrono_parse_naive, chrono_representable, chrono_rfc3339_naive, display_format,
    format_naive, join_nanos, join_time, joined, now_naive_local, opt_joined, parse_naive, parse_rfc3339_naive,
    second_of, secs_between, split_nanos, subsec_of, within, MAX_TIMESTAMP, NANOS_PER_SEC,
};

verus! {

/// How close a deadline is.
#[derive(Clone, Copy, Debug, PartialEq, Eq, Structural)]
pub enum Urgency {
    Overdue,
    Urgent,
    Soon,
    Normal,
    Relaxed,
    Unknown,
}

impl Urgency {
    /// The label of the urgency, as `label` returns it.
    pub closed spec fn label_str(self) -> &'static str {
        match self {
            Urgency::Overdue => "已过期",
            Urgency::Urgent => "6小时内",
            Urgency::Soon => "1天内",
            Urgency::Normal => "3天内",
            Urgency::Relaxed => "3天后",
            Urgency::Unknown => "无截止",
        }
    }

    /// The text colour of the urgency, as `color` returns it.
    pub closed spec fn color_str(self) -> &'static str {
        match self {
            Urgency::Overdue => "#ef5350",
            Urgency::Urgent => "#ffa726",
            Urgency::Soon => "#42a5f5",
            Urgency::Normal => "#66bb6a",
            Urgency::Relaxed => "#78909c",
            Urgency::Unknown => "#90a4ae",
        }
    }

    /// The background colour of the urgency, as `bg_color` returns it.
    pub closed spec fn bg_color_str(self) -> &'static str {
        match self {
            Urgency::Overdue => "rgba(239,83,80,0.12)",
            Urgency::Urgent => "rgba(255,167,38,0.12)",
            Urgency::Soon => "rgba(66,165,245,0.12)",
            Urgency::Normal => "rgba(102,187,106,0.12)",
            Urgency::Relaxed => "rgba(120,144,156,0.08)",
            Urgency::Unknown => "rgba(144,164,174,0.08)",
        }
    }

    /// The label shown for the urgency.
    pub fn label(self) -> (r: &'static str)
        ensures
            r == self.label_str(),
            r@ == match self {
                Urgency::Overdue => "已过期"@,
                Urgency::Urgent => "6小时内"@,
                Urgency::Soon => "1天内"@,
                Urgency::Normal => "3天内"@,
                Urgency::Relaxed => "3天后"@,
                Urgency::Unknown => "无截止"@,
            },
    {
        match self {
            Urgency::Overdue => "已过期",
            Urgency::Urgent => "6小时内",
            Urgency::Soon => "1天内",
            Urgency::Normal => "3天内",
            Urgency::Relaxed => "3天后",
            Urgency::Unknown => "无截止",
        }
    }

    /// The text colour shown for the urgency.
    pub fn color(self) -> (r: &'static str)
        ensures
            r == self.color_str(),
            r@ == match self {
                Urgency::Overdue => "#ef5350"@,
                Urgency::Urgent => "#ffa726"@,
                Urgency::Soon => "#42a5f5"@,
                Urgency::Normal => "#66bb6a"@,
                Urgency::Relaxed => "#78909c"@,
                Urgency::Unknown => "#90a4ae"@,
            },
    {
        match self {
            Urgency::Overdue => "#ef5350",
            Urgency::Urgent => "#ffa726",
            Urgency::Soon => "#42a5f5",
            Urgency::Normal => "#66bb6a",
            Urgency::Relaxed => "#78909c",
            Urgency::Unknown => "#90a4ae",
        }
    }

    /// The background colour shown for the urgency.
    pub fn bg_color(self) -> (r: &'static str)
        ensures
            r == self.bg_color_str(),
            r@ == match self {
                Urgency::Overdue => "rgba(239,83,80,0.12)"@,
                Urgency::Urgent => "rgba(255,167,38,0.12)"@,
                Urgency::Soon => "rgba(66,165,245,0.12)"@,
                Urgency::Normal => "rgba(102,187,106,0.12)"@,
                Urgency::Relaxed => "rgba(120,144,156,0.08)"@,
                Urgency::Unknown => "rgba(144,164,174,0.08)"@,
            },
    {
        match self {
            Urgency::Overdue => "rgba(239,83,80,0.12)",
            Urgency::Urgent => "rgba(255,167,38,0.12)",
            Urgency::Soon => "rgba(66,165,245,0.12)",
            Urgency::Normal => "rgba(102,187,106,0.12)",
            Urgency::Relaxed => "rgba(120,144,156,0.08)",
            Urgency::Unknown => "rgba(144,164,174,0.08)",
        }
    }
}

/// One assignment or exam. The deadline is a wall-clock time in nanoseconds
/// (see `time`).
#[derive(Clone, Debug)]
pub struct HomeworkItem {
    pub title: String,
    pub course: String,
    pub deadline: Option<i128>,
    pub platform: String,
    pub submitted: bool,
    pub url: String,
}

/// The contents of an item.
pub struct HomeworkView {
    pub title: Seq<char>,
    pub course: Seq<char>,
    pub deadline: Option<i128>,
    pub platform: Seq<char>,
    pub submitted: bool,
    pub url: Seq<char>,
}

impl View for HomeworkItem {
    type V = HomeworkView;

    open spec fn view(&self) -> HomeworkView {
        HomeworkView {
            title: self.title@,
            course: self.course@,
            deadline: self.deadline,
            platform: self.platform@,
            submitted: self.submitted,
            url: self.url@,
        }
    }
}

/// The contents of a list of items.
pub open spec fn items_view(items: Seq<HomeworkItem>) -> Seq<HomeworkView> {
    items.map_values(|h: HomeworkItem| h@)
}

/// Six hours, one day and three days, in nanoseconds.
pub open spec fn six_hours() -> int {
    21_600_000_000_000
}

pub open spec fn one_day() -> int {
    86_400_000_000_000
}

pub open spec fn three_days() -> int {
    259_200_000_000_000
}

/// Whether the deadline has passed at wall-clock time `now`.
pub open spec fn spec_is_overdue(deadline: Option<i128>, now: int) -> bool {
    match deadline {
        Some(d) => now > d,
        None => false,
    }
}

/// How close the deadline is at wall-clock time `now`.
pub open spec fn spec_urgency(deadline: Option<i128>, now: int) -> Urgency {
    match deadline {
        None => Urgency::Unknown,
        Some(d) => if now > d {
            Urgency::Overdue
        } else if d - now <= six_hours() {
            Urgency::Urgent
        } else if d - now <= one_day() {
            Urgency::Soon
        } else if d - now <= three_days() {
            Urgency::Normal
        } else {
            Urgency::Relaxed
        },
    }
}

/// The remaining-time text at wall-clock time `now`: whole days overdue, whole
/// days left, or hours and minutes left within the last day (chrono's
/// `num_days` and `num_seconds`, which count whole seconds toward zero).
pub open spec fn spec_remain_text(deadline: Option<i128>, now: int) -> Option<Seq<char>> {
    match deadline {
        None => None,
        Some(d) => if now > d {
            Some("已过期 "@ + dec_nat((((now - d) / (NANOS_PER_SEC as int)) / 86400) as nat) + "天"@)
        } else {
            let s = (d - now) / (NANOS_PER_SEC as int);
            if s / 86400 > 0 {
                Some("剩余 "@ + dec_nat((s / 86400) as nat) + "天"@)
            } else {
                Some(
                    "剩余 "@ + dec_nat((s / 3600) as nat) + "时"@ + dec_nat(((s % 3600) / 60) as nat)
                        + "分"@,
                )
            }
        },
    }
}

/// The deadline as shown to the user, `无截止时间` without one (or for one that
/// chrono cannot hold).
pub open spec fn spec_deadline_display(deadline: Option<i128>) -> Seq<char> {
    match deadline {
        Some(d) => if chrono_representable(second_of(d as int)) {
            match chrono_format(second_of(d as int), subsec_of(d as int), display_format()) {
                Some(s) => s,
                None => "无截止时间"@,
            }
        } else {
            "无截止时间"@
        },
        None => "无截止时间"@,
    }
}

/// The last instant chrono holds (`NaiveDateTime::MAX`), in nanoseconds.
pub open spec fn latest_time() -> int {
    join_time(MAX_TIMESTAMP as int, 999_999_999)
}

/// The key by which deadlines are ordered: a missing deadline sorts as
/// chrono's last instant.
pub open spec fn sort_key(deadline: Option<i128>) -> int {
    match deadline {
        Some(d) => d as int,
        None => latest_time(),
    }
}

impl HomeworkItem {
    /// Whether the deadline has passed at wall-clock time `now`.
    pub fn is_overdue_at(&self, now: i128) -> (r: bool)
        ensures
            r == spec_is_overdue(self.deadline, now as int),
    {
        match self.deadline {
            Some(d) => now > d,
            None => false,
        }
    }

    /// Whether the deadline has passed now.
    pub fn is_overdue(&self) -> (r: bool)
        ensures
            exists|t: i128| r == spec_is_overdue(self.deadline, t as int),
            self.deadline is None ==> !r,
    {
        let now = now_naive_local();
        self.is_overdue_at(now)
    }

    /// How close the deadline is at wall-clock time `now`.
    pub fn urgency_at(&self, now: i128) -> (r: Urgency)
        ensures
            r == spec_urgency(self.deadline, now as int),
    {
        match self.deadline {
            None => Urgency::Unknown,
            Some(d) => {
                if self.is_overdue_at(now) {
                    return Urgency::Overdue;
                }
                if within(d, now, 21_600_000_000_000) {
                    Urgency::Urgent
                } else if within(d, now, 86_400_000_000_000) {
                    Urgency::Soon
                } else if within(d, now, 259_200_000_000_000) {
                    Urgency::Normal
                } else {
                    Urgency::Relaxed
                }
            },
        }
    }

    /// How close the deadline is now.
    pub fn urgency(&self) -> (r: Urgency)
        ensures
            exists|t: i128| r == spec_urgency(self.deadline, t as int),
            (r == Urgency::Unknown) <==> self.deadline is None,
    {
        let now = now_naive_local();
        self.urgency_at(now)
    }

    /// The remaining-time text at wall-clock time `now`.
    pub fn remain_text_at(&self, now: i128) -> (r: Option<String>)
        ensures
            r matches Some(s) ==> spec_remain_text(self.deadline, now as int) == Some(s@),
            r is None ==> spec_remain_text(self.deadline, now as int) is None,
    {
        let d = match self.deadline {
            Some(d) => d,
            None => return None,
        };
        if self.is_overdue_at(now) {
            let secs = secs_between(now, d);
            let days: i128 = secs / 86400;
            let mut s = String::from_str("已过期 ");
            let n = fmt_u128(days as u128);
            s.append(n.as_str());
            s.append("天");
            return Some(s);
        }
        let secs = secs_between(d, now);
        let days: i128 = secs / 86400;
        if days > 0 {
            let mut s = String::from_str("剩余 ");
            let n = fmt_u128(days as u128);
            s.append(n.as_str());
            s.append("天");
            Some(s)
        } else {
            let hours: i128 = secs / 3600;
            let minutes: i128 = (secs % 3600) / 60;
            let mut s = String::from_str("剩余 ");
            let h = fmt_u128(hours as u128);
            s.append(h.as_str());
            s.append("时");
            let m = fmt_u128(minutes as u128);
            s.append(m.as_str());
            s.append("分");
            Some(s)
        }
    }

    /// The remaining-time text now.
    pub fn remain_text(&self) -> (r: Option<String>)
        ensures
            exists|t: i128| #![auto]
                match r {
                    Some(s) => spec_remain_text(self.deadline, t as int) == Some(s@),
                    None => spec_remain_text(self.deadline, t as int) is None,
                },
            r is None <==> self.deadline is None,
    {
        let now = now_naive_local();
        self.remain_text_at(now)
    }

    /// The deadline as shown to the user (`%Y-%m-%d %H:%M`).
    pub fn deadline_display(&self) -> (r: String)
        ensures
            r@ == spec_deadline_display(self.deadline),
    {
        match self.deadline {
            Some(d) => match split_nanos(d) {
                Some((secs, sub)) => match format_naive(secs, sub, "%Y-%m-%d %H:%M") {
                    Some(s) => s,
                    None => String::from_str("无截止时间"),
                },
                None => String::from_str("无截止时间"),
            },
            None => String::from_str("无截止时间"),
        }
    }

    /// The key by which items are ordered by deadline.
    pub fn deadline_sort_key(&self) -> (r: i128)
        ensures
            r as int == sort_key(self.deadline),
    {
        match self.deadline {
            Some(d) => d,
            None => MAX_TIMESTAMP as i128 * NANOS_PER_SEC + 999_999_999,
        }
    }
}

/// What `parse_iso_datetime` reads: RFC 3339 first, then
/// `%Y-%m-%dT%H:%M:%S%.f`, then `%Y-%m-%d %H:%M:%S`.
pub open spec fn spec_parse_iso_datetime(raw: Seq<char>) -> Option<int> {
    match chrono_rfc3339_naive(raw) {
        Some(t) => opt_joined(Some(t)),
        None => match chrono_parse_naive(raw, "%Y-%m-%dT%H:%M:%S%.f"@) {
            Some(t) => opt_joined(Some(t)),
            None => opt_joined(chrono_parse_naive(raw, "%Y-%m-%d %H:%M:%S"@)),
        },
    }
}

/// Reads a date and time in one of the three forms the platforms and the cache
/// use.
pub fn parse_iso_datetime(raw: &str) -> (r: Option<i128>)
    ensures
        r matches Some(v) ==> spec_parse_iso_datetime(raw@) == Some(v as int),
        r is None ==> spec_parse_iso_datetime(raw@) is None,
{
    match parse_rfc3339_naive(raw) {
        Some(t) => joined(Some(t)),
        None => match parse_naive(raw, "%Y-%m-%dT%H:%M:%S%.f") {
            Some(t) => joined(Some(t)),
            None => joined(parse_naive(raw, "%Y-%m-%d %H:%M:%S")),
        },
    }
}

/// A rank of urgency: the closer the deadline, the lower.
pub open spec fn urgency_rank(u: Urgency) -> int {
    match u {
        Urgency::Overdue => 0,
        Urgency::Urgent => 1,
        Urgency::Soon => 2,
        Urgency::Normal => 3,
        Urgency::Relaxed => 4,
        Urgency::Unknown => 5,
    }
}

/// As time passes, an item's urgency never relaxes.
pub proof fn lemma_urgency_monotone(deadline: Option<i128>, t1: int, t2: int)
    requires
        t1 <= t2,
    ensures
        urgency_rank(spec_urgency(deadline, t2)) <= urgency_rank(spec_urgency(deadline, t1)),
{
}

/// An item is `Overdue` exactly when its deadline has passed, `Unknown` exactly
/// when it has none, and it has a remaining-time text exactly when it has a
/// deadline.
pub proof fn lemma_urgency_agrees_with_deadline(deadline: Option<i128>, now: int)
    ensures
        (spec_urgency(deadline, now) == Urgency::Overdue) <==> spec_is_overdue(deadline, now),
        (spec_urgency(deadline, now) == Urgency::Unknown) <==> deadline is None,
        spec_remain_text(deadline, now) is Some <==> deadline is Some,
{
}

} // verus!
