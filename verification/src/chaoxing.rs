//! Chaoxing: the course list, the homework and exam pages, and how their
//! rows become items.

use vstd::prelude::*;
use vstd::string::*;
use regex::Regex;
use url::Url;
use crate::html::{founds_view, scraper_select_doc, scraper_select_in, select_doc, select_in, Found};
use crate::json::{
    id_text, spec_as_array, spec_as_bool, spec_as_i64, spec_get, spec_get_opt,
    spec_id_text, spec_str_at, str_at, str_eq, JsonValue,
};
use crate::models::{items_view, HomeworkItem, HomeworkView};
use crate::text::{
    contains_seq, contains_str, parse_i64, replace_seq, replace_str, spec_parse_i64, starts_with,
    starts_with_str, trim, trim_ws,
};
use crate::time::{add_time, chrono_parse_naive, joined, opt_joined, parse_naive, spec_add_time};

verus! {

/// The platform's name on its items.
pub open spec fn chaoxing_platform() -> Seq<char> {
    "超星"@
}

/// The first capture group of the first match of a regular expression
/// (regex `Regex::captures`, group 1).
pub uninterp spec fn regex_capture(pattern: Seq<char>, text: Seq<char>) -> Option<Seq<char>>;

/// The query pairs of a URL, percent-decoded (url `Url::parse`, then
/// `query_pairs`); `None` where the text is not a URL.
pub uninterp spec fn url_query_pairs(url: Seq<char>) -> Option<Seq<(Seq<char>, Seq<char>)>>;

/// The first capture group of the first match of `pattern` in `text`.
#[verifier::external_body]
fn capture_group1(pattern: &str, text: &str) -> (r: Option<String>)
    ensures
        r matches Some(s) ==> regex_capture(pattern@, text@) == Some(s@),
        r is None ==> regex_capture(pattern@, text@) is None,
{
    Regex::new(pattern).ok()?.captures(text)?.get(1).map(|m| m.as_str().to_string())
}

/// The query pairs of a URL.
#[verifier::external_body]
fn url_pairs(url: &str) -> (r: Option<Vec<(String, String)>>)
    ensures
        r matches Some(v) ==> url_query_pairs(url@) == Some(pair_views(v@)),
        r is None ==> url_query_pairs(url@) is None,
{
    Url::parse(url).ok().map(|u| u.query_pairs().map(|(k, v)| (k.into_owned(), v.into_owned())).collect())
}

pub open spec fn pair_views(v: Seq<(String, String)>) -> Seq<(Seq<char>, Seq<char>)> {
    v.map_values(|p: (String, String)| (p.0@, p.1@))
}

/// The site prefix of relative links.
pub open spec fn site() -> Seq<char> {
    "https://mooc1.chaoxing.com"@
}

/// A link made absolute: kept when it starts with `http`, else put under the
/// site.
pub open spec fn absolute(raw: Seq<char>) -> Seq<char> {
    if starts_with(raw, "http"@) {
        raw
    } else {
        site() + raw
    }
}

fn absolute_of(raw: &str) -> (r: String)
    ensures
        r@ == absolute(raw@),
{
    if starts_with_str(raw, "http") {
        String::from_str(raw)
    } else {
        let mut s = String::from_str("https://mooc1.chaoxing.com");
        s.append(raw);
        s
    }
}

/// The query pairs of a link (relative links are read under the site); none
/// where it does not parse.
pub open spec fn spec_query_params(raw: Seq<char>) -> Seq<(Seq<char>, Seq<char>)> {
    match url_query_pairs(absolute(raw)) {
        Some(p) => p,
        None => Seq::empty(),
    }
}

/// The query pairs of a link.
pub fn query_params(raw: &str) -> (r: Vec<(String, String)>)
    ensures
        pair_views(r@) == spec_query_params(raw@),
{
    let full = absolute_of(raw);
    match url_pairs(full.as_str()) {
        Some(v) => v,
        None => Vec::new(),
    }
}

/// The value of a query parameter: the last pair with the key wins; empty
/// when there is none.
pub open spec fn spec_param(pairs: Seq<(Seq<char>, Seq<char>)>, key: Seq<char>) -> Seq<char>
    decreases pairs.len(),
{
    if pairs.len() == 0 {
        Seq::empty()
    } else if pairs.last().0 == key {
        pairs.last().1
    } else {
        spec_param(pairs.drop_last(), key)
    }
}

/// The value of a query parameter.
pub fn param(pairs: &Vec<(String, String)>, key: &str) -> (r: String)
    ensures
        r@ == spec_param(pair_views(pairs@), key@),
{
    let mut i: usize = pairs.len();
    assert(pair_views(pairs@).take(i as int) =~= pair_views(pairs@));
    while i > 0
        invariant
            i <= pairs@.len(),
            spec_param(pair_views(pairs@), key@) == spec_param(pair_views(pairs@).take(i as int), key@),
        decreases i,
    {
        assert(pair_views(pairs@).take(i as int).drop_last() =~= pair_views(pairs@).take(i - 1));
        assert(pair_views(pairs@).take(i as int).last() == (pairs@[i - 1].0@, pairs@[i - 1].1@));
        if str_eq(pairs[i - 1].0.as_str(), key) {
            return pairs[i - 1].1.clone();
        }
        i -= 1;
    }
    String::new()
}

/// A link as shown: the API host replaced by the site's host, made absolute;
/// empty stays empty.
pub open spec fn spec_fix_url(url: Seq<char>) -> Seq<char> {
    if url.len() == 0 {
        Seq::empty()
    } else {
        let u = replace_seq(url, "mooc1-api.chaoxing.com"@, "mooc1.chaoxing.com"@);
        if starts_with(u, "http"@) {
            u
        } else {
            site() + u
        }
    }
}

/// A link as shown.
pub fn fix_url(url: &str) -> (r: String)
    ensures
        r@ == spec_fix_url(url@),
{
    if url.is_empty() {
        return String::new();
    }
    proof {
        reveal_strlit("mooc1-api.chaoxing.com");
    }
    let u = replace_str(url, "mooc1-api.chaoxing.com", "mooc1.chaoxing.com");
    absolute_of(u.as_str())
}

/// The course page of a course's homework.
pub open spec fn homework_url(course_id: Seq<char>, clazz_id: Seq<char>) -> Seq<char> {
    "https://mooc1.chaoxing.com/visit/stucoursemiddle?ismooc2=1&courseid="@ + course_id
        + "&clazzid="@ + clazz_id + "&pageHeader=8"@
}

/// The course page of a course's homework.
pub fn build_homework_url(course_id: &str, clazz_id: &str) -> (r: String)
    ensures
        r@ == homework_url(course_id@, clazz_id@),
{
    let mut s = String::from_str("https://mooc1.chaoxing.com/visit/stucoursemiddle?ismooc2=1&courseid=");
    s.append(course_id);
    s.append("&clazzid=");
    s.append(clazz_id);
    s.append("&pageHeader=8");
    s
}

/// The notes page of an exam.
pub open spec fn exam_url(course_id: Seq<char>, class_id: Seq<char>, exam_id: Seq<char>) -> Seq<char> {
    "https://mooc1.chaoxing.com/exam-ans/exam/test/examcode/examnotes?courseId="@ + course_id
        + "&classId="@ + class_id + "&examId="@ + exam_id
}

/// The notes page of an exam.
pub fn build_exam_url(course_id: &str, class_id: &str, exam_id: &str) -> (r: String)
    ensures
        r@ == exam_url(course_id@, class_id@, exam_id@),
{
    let mut s = String::from_str("https://mooc1.chaoxing.com/exam-ans/exam/test/examcode/examnotes?courseId=");
    s.append(course_id);
    s.append("&classId=");
    s.append(class_id);
    s.append("&examId=");
    s.append(exam_id);
    s
}

/// The number in a remaining-time text: the first run of digits.
pub open spec fn left_time_amount(s: Seq<char>) -> Option<int> {
    match regex_capture("(\\d+)"@, s) {
        Some(d) => spec_parse_i64(d),
        None => None,
    }
}

/// Seconds per unit of a remaining-time text: hours, else days, else
/// minutes; 0 when it names none.
pub open spec fn left_time_unit(s: Seq<char>) -> int {
    if contains_seq(s, "小时"@) {
        3600
    } else if contains_seq(s, "天"@) {
        86400
    } else if contains_seq(s, "分钟"@) || contains_seq(s, "分"@) {
        60
    } else {
        0
    }
}

/// The largest number of seconds a chrono duration holds.
pub open spec fn max_duration_secs() -> int {
    9223372036854775
}

/// The remaining time is more seconds than chrono can hold.
pub open spec fn left_time_overflows(s: Seq<char>) -> bool {
    s.len() > 0 && left_time_unit(s) != 0 && match left_time_amount(s) {
        Some(v) => v * left_time_unit(s) > max_duration_secs() || v * left_time_unit(s)
            < -max_duration_secs(),
        None => false,
    }
}

/// The deadline that a remaining-time text gives at wall-clock time `now`.
pub open spec fn spec_parse_left_time(s: Seq<char>, now: int) -> Option<int> {
    if s.len() == 0 || left_time_unit(s) == 0 {
        None
    } else {
        match left_time_amount(s) {
            Some(v) => spec_add_time(now, v * left_time_unit(s)),
            None => None,
        }
    }
}

fn unit_of(s: &str) -> (r: i64)
    ensures
        r as int == left_time_unit(s@),
{
    if contains_str(s, "小时") {
        3600
    } else if contains_str(s, "天") {
        86400
    } else if contains_str(s, "分钟") || contains_str(s, "分") {
        60
    } else {
        0
    }
}

/// Whether a remaining-time text is more seconds than chrono can hold.
pub fn left_time_too_long(s: &str) -> (r: bool)
    ensures
        r == left_time_overflows(s@),
{
    if s.is_empty() {
        return false;
    }
    let unit = unit_of(s);
    if unit == 0 {
        return false;
    }
    let v = match capture_group1("(\\d+)", s) {
        Some(d) => match parse_i64(d.as_str()) {
            Some(v) => v,
            None => return false,
        },
        None => return false,
    };
    assert(-9223372036854775808 * 86400 <= v as int * unit as int <= 9223372036854775807 * 86400)
        by (nonlinear_arith)
        requires
            -9223372036854775808 <= v <= 9223372036854775807,
            0 <= unit <= 86400,
    ;
    let prod: i128 = v as i128 * unit as i128;
    prod > 9223372036854775 || prod < -9223372036854775
}

/// The deadline that a remaining-time text (`3小时`, `2天`, `15分钟`) gives
/// at wall-clock time `now`.
pub fn parse_left_time(s: &str, now: i128) -> (r: Option<i128>)
    requires
        !left_time_overflows(s@),
    ensures
        r matches Some(v) ==> spec_parse_left_time(s@, now as int) == Some(v as int),
        r is None ==> spec_parse_left_time(s@, now as int) is None,
{
    if s.is_empty() {
        return None;
    }
    let unit = unit_of(s);
    if unit == 0 {
        return None;
    }
    let v = match capture_group1("(\\d+)", s) {
        Some(d) => match parse_i64(d.as_str()) {
            Some(v) => v,
            None => return None,
        },
        None => return None,
    };
    assert(-9223372036854775808 * 86400 <= v as int * unit as int <= 9223372036854775807 * 86400)
        by (nonlinear_arith)
        requires
            -9223372036854775808 <= v <= 9223372036854775807,
            0 <= unit <= 86400,
    ;
    let prod: i128 = v as i128 * unit as i128;
    add_time(now, prod as i64)
}

/// The first element's text, trimmed; empty when nothing matched.
pub open spec fn first_trimmed(es: Seq<(int, Seq<char>, Option<Seq<char>>)>) -> Seq<char> {
    if es.len() > 0 {
        trim_ws(es[0].1)
    } else {
        Seq::empty()
    }
}

fn first_trimmed_of(es: &Vec<Found>) -> (r: String)
    ensures
        r@ == first_trimmed(founds_view(es@)),
{
    if es.len() > 0 {
        assert(founds_view(es@)[0] == crate::html::found_view(es@[0]));
        trim(es[0].text.as_str())
    } else {
        String::new()
    }
}

/// An optional text, empty when missing.
pub open spec fn opt_text(o: Option<Seq<char>>) -> Seq<char> {
    match o {
        Some(t) => t,
        None => Seq::empty(),
    }
}

fn opt_string(o: &Option<String>) -> (r: String)
    ensures
        r@ == opt_text(
            match *o {
                Some(t) => Some(t@),
                None => None,
            },
        ),
{
    match o {
        Some(t) => t.clone(),
        None => String::new(),
    }
}

pub open spec fn opt_i128(o: Option<int>) -> Option<i128> {
    match o {
        Some(v) => Some(v as i128),
        None => None,
    }
}

/// A row of the homework page.
pub struct HwRow {
    pub title: String,
    pub course: String,
    pub uncommitted: bool,
    pub deadline: Option<i128>,
    pub work_id: String,
    pub course_id: String,
    pub clazz_id: String,
    pub raw: String,
}

/// What a homework row holds.
pub struct HwRowView {
    pub title: Seq<char>,
    pub course: Seq<char>,
    pub uncommitted: bool,
    pub deadline: Option<i128>,
    pub work_id: Seq<char>,
    pub course_id: Seq<char>,
    pub clazz_id: Seq<char>,
    pub raw: Seq<char>,
}

impl View for HwRow {
    type V = HwRowView;

    open spec fn view(&self) -> HwRowView {
        HwRowView {
            title: self.title@,
            course: self.course@,
            uncommitted: self.uncommitted,
            deadline: self.deadline,
            work_id: self.work_id@,
            course_id: self.course_id@,
            clazz_id: self.clazz_id@,
            raw: self.raw@,
        }
    }
}

pub open spec fn hw_rows_view(rows: Seq<HwRow>) -> Seq<HwRowView> {
    rows.map_values(|r: HwRow| r@)
}

/// The entries of the homework page: `ul.nav > li`, with their `data` link.
pub open spec fn hw_entries(html: Seq<char>) -> Seq<(int, Seq<char>, Option<Seq<char>>)> {
    scraper_select_doc(html, "ul.nav > li"@, "data"@)
}

/// The option box of an entry, if it has one.
pub open spec fn hw_option(html: Seq<char>, li: int) -> Option<int> {
    let opts = scraper_select_in(html, li, "div[role=\"option\"]"@, ""@);
    if opts.len() > 0 {
        Some(opts[0].0)
    } else {
        None
    }
}

/// The remaining-time text of an entry's option box.
pub open spec fn hw_left_time(html: Seq<char>, o: int) -> Seq<char> {
    first_trimmed(scraper_select_in(html, o, ".fr"@, ""@))
}

/// The row of an entry whose option box is `o`: title, course, whether the
/// status badge says uncommitted, deadline, and the ids in its link.
pub open spec fn hw_row_of(
    html: Seq<char>,
    li: (int, Seq<char>, Option<Seq<char>>),
    o: int,
    now: int,
) -> HwRowView {
    let spans = scraper_select_in(html, o, "span"@, "class"@);
    let raw = opt_text(li.2);
    let qs = spec_query_params(raw);
    HwRowView {
        title: first_trimmed(scraper_select_in(html, o, "p"@, ""@)),
        course: if spans.len() > 1 {
            trim_ws(spans[1].1)
        } else {
            Seq::empty()
        },
        uncommitted: spans.len() > 0 && match spans[0].2 {
            Some(c) => contains_seq(c, "status"@),
            None => false,
        },
        deadline: opt_i128(spec_parse_left_time(hw_left_time(html, o), now)),
        work_id: spec_param(qs, "taskrefId"@),
        course_id: spec_param(qs, "courseId"@),
        clazz_id: spec_param(qs, "clazzId"@),
        raw: raw,
    }
}

/// The rows of the homework page's entries (entries without an option box
/// give none).
pub open spec fn hw_rows(
    html: Seq<char>,
    lis: Seq<(int, Seq<char>, Option<Seq<char>>)>,
    now: int,
) -> Seq<HwRowView>
    decreases lis.len(),
{
    if lis.len() == 0 {
        Seq::empty()
    } else {
        let rest = hw_rows(html, lis.drop_last(), now);
        match hw_option(html, lis.last().0) {
            Some(o) => rest.push(hw_row_of(html, lis.last(), o, now)),
            None => rest,
        }
    }
}

/// Some entry's remaining time is more than chrono can hold.
pub open spec fn hw_rows_overflow(html: Seq<char>, lis: Seq<(int, Seq<char>, Option<Seq<char>>)>) -> bool {
    exists|i: int|
        0 <= i < lis.len() && match hw_option(html, #[trigger] lis[i].0) {
            Some(o) => left_time_overflows(hw_left_time(html, o)),
            None => false,
        }
}

/// The rows of the homework page at wall-clock time `now`; `None` where a
/// remaining time is more than chrono can hold.
pub fn extract_homework(html: &str, now: i128) -> (r: Option<Vec<HwRow>>)
    ensures
        r is None <==> hw_rows_overflow(html@, hw_entries(html@)),
        r matches Some(rows) ==> hw_rows_view(rows@) == hw_rows(html@, hw_entries(html@), now as int),
{
    let lis = select_doc(html, "ul.nav > li", "data");
    let ghost ls = founds_view(lis@);
    let mut rows: Vec<HwRow> = Vec::new();
    let mut k: usize = 0;
    while k < lis.len()
        invariant
            k <= lis@.len(),
            ls == founds_view(lis@),
            ls == hw_entries(html@),
            hw_rows_view(rows@) == hw_rows(html@, ls.take(k as int), now as int),
            !hw_rows_overflow(html@, ls.take(k as int)),
        decreases lis@.len() - k,
    {
        let ghost pre = ls.take(k as int);
        assert(ls.take(k + 1).drop_last() =~= pre);
        assert(ls.take(k + 1).last() == ls[k as int]);
        assert(ls[k as int] == crate::html::found_view(lis@[k as int]));
        let li = &lis[k];
        let opts = select_in(html, li.node, "div[role=\"option\"]", "");
        if opts.len() == 0 {
            assert(!hw_rows_overflow(html@, ls.take(k + 1))) by {
                if hw_rows_overflow(html@, ls.take(k + 1)) {
                    let i = choose|i: int| 0 <= i < ls.take(k + 1).len() && match hw_option(html@, #[trigger] ls.take(k + 1)[i].0) {
                        Some(o) => left_time_overflows(hw_left_time(html@, o)),
                        None => false,
                    };
                    if i < k {
                        assert(ls.take(k + 1)[i] == pre[i]);
                    }
                }
            }
            k += 1;
            continue;
        }
        assert(founds_view(opts@)[0] == crate::html::found_view(opts@[0]));
        let o = opts[0].node;
        let left = first_trimmed_of(&select_in(html, o, ".fr", ""));
        if left_time_too_long(left.as_str()) {
            assert(hw_rows_overflow(html@, ls)) by {
                assert(hw_option(html@, ls[k as int].0) == Some(o as int));
            }
            return None;
        }
        let title = first_trimmed_of(&select_in(html, o, "p", ""));
        let spans = select_in(html, o, "span", "class");
        let uncommitted = if spans.len() > 0 {
            assert(founds_view(spans@)[0] == crate::html::found_view(spans@[0]));
            match &spans[0].attr {
                Some(c) => contains_str(c.as_str(), "status"),
                None => false,
            }
        } else {
            false
        };
        let course = if spans.len() > 1 {
            assert(founds_view(spans@)[1] == crate::html::found_view(spans@[1]));
            trim(spans[1].text.as_str())
        } else {
            String::new()
        };
        let raw = opt_string(&li.attr);
        let qs = query_params(raw.as_str());
        let row = HwRow {
            title,
            course,
            uncommitted,
            deadline: parse_left_time(left.as_str(), now),
            work_id: param(&qs, "taskrefId"),
            course_id: param(&qs, "courseId"),
            clazz_id: param(&qs, "clazzId"),
            raw,
        };
        assert(hw_option(html@, ls[k as int].0) == Some(o as int));
        assert(row@ == hw_row_of(html@, ls[k as int], o as int, now as int));
        rows.push(row);
        assert(hw_rows_view(rows@) =~= hw_rows_view(rows@.drop_last()).push(row@));
        assert(!hw_rows_overflow(html@, ls.take(k + 1))) by {
            if hw_rows_overflow(html@, ls.take(k + 1)) {
                let i = choose|i: int| 0 <= i < ls.take(k + 1).len() && match hw_option(html@, #[trigger] ls.take(k + 1)[i].0) {
                    Some(o) => left_time_overflows(hw_left_time(html@, o)),
                    None => false,
                };
                if i < k {
                    assert(ls.take(k + 1)[i] == pre[i]);
                }
            }
        }
        k += 1;
    }
    assert(ls.take(lis@.len() as int) =~= ls);
    Some(rows)
}

/// A row of an exam page.
pub struct ExamRow {
    pub title: String,
    pub expired: bool,
    pub finished: bool,
    pub deadline: Option<i128>,
    pub exam_id: String,
    pub course_id: String,
    pub class_id: String,
    pub raw: String,
}

/// What an exam row holds.
pub struct ExamRowView {
    pub title: Seq<char>,
    pub expired: bool,
    pub finished: bool,
    pub deadline: Option<i128>,
    pub exam_id: Seq<char>,
    pub course_id: Seq<char>,
    pub class_id: Seq<char>,
    pub raw: Seq<char>,
}

impl View for ExamRow {
    type V = ExamRowView;

    open spec fn view(&self) -> ExamRowView {
        ExamRowView {
            title: self.title@,
            expired: self.expired,
            finished: self.finished,
            deadline: self.deadline,
            exam_id: self.exam_id@,
            course_id: self.course_id@,
            class_id: self.class_id@,
            raw: self.raw@,
        }
    }
}

pub open spec fn exam_rows_view(rows: Seq<ExamRow>) -> Seq<ExamRowView> {
    rows.map_values(|r: ExamRow| r@)
}

/// The entries of the exam list page: `ul.ks_list > li`, with their `data`
/// link.
pub open spec fn exam_entries(html: Seq<char>) -> Seq<(int, Seq<char>, Option<Seq<char>>)> {
    scraper_select_doc(html, "ul.ks_list > li"@, "data"@)
}

/// The remaining-time text of an exam entry (from its first `dl`).
pub open spec fn exam_left_time(html: Seq<char>, li: int) -> Seq<char> {
    let dls = scraper_select_in(html, li, "dl"@, ""@);
    if dls.len() > 0 {
        first_trimmed(scraper_select_in(html, dls[0].0, "dd"@, ""@))
    } else {
        Seq::empty()
    }
}

/// Whether a state text says the exam is done or awaits grading.
pub open spec fn done_state(s: Seq<char>) -> bool {
    contains_seq(s, "已完成"@) || contains_seq(s, "待批阅"@)
}

/// The row of an exam entry: title and remaining time from its `dl`, expired
/// when its picture is `ks_02`, finished by its state, ids from its link.
pub open spec fn exam_row_of(html: Seq<char>, li: (int, Seq<char>, Option<Seq<char>>), now: int) -> ExamRowView {
    let dls = scraper_select_in(html, li.0, "dl"@, ""@);
    let title = if dls.len() > 0 {
        first_trimmed(scraper_select_in(html, dls[0].0, "dt"@, ""@))
    } else {
        Seq::empty()
    };
    let imgs = scraper_select_in(html, li.0, "div.ks_pic > img"@, "src"@);
    let states = scraper_select_in(html, li.0, "span.ks_state"@, ""@);
    let status = if states.len() > 0 {
        states[0].1
    } else {
        Seq::empty()
    };
    let raw = opt_text(li.2);
    let full = replace_seq(absolute(raw), "mooc1-api.chaoxing.com"@, "mooc1.chaoxing.com"@);
    let qs = spec_query_params(full);
    ExamRowView {
        title: title,
        expired: imgs.len() > 0 && match imgs[0].2 {
            Some(src) => contains_seq(src, "ks_02"@),
            None => false,
        },
        finished: done_state(status),
        deadline: opt_i128(spec_parse_left_time(exam_left_time(html, li.0), now)),
        exam_id: spec_param(qs, "taskrefId"@),
        course_id: spec_param(qs, "courseId"@),
        class_id: spec_param(qs, "classId"@),
        raw: raw,
    }
}

/// The rows of the exam list page.
pub open spec fn exam_rows(html: Seq<char>, lis: Seq<(int, Seq<char>, Option<Seq<char>>)>, now: int) -> Seq<ExamRowView>
    decreases lis.len(),
{
    if lis.len() == 0 {
        Seq::empty()
    } else {
        exam_rows(html, lis.drop_last(), now).push(exam_row_of(html, lis.last(), now))
    }
}

/// Some exam's remaining time is more than chrono can hold.
pub open spec fn exam_rows_overflow(html: Seq<char>, lis: Seq<(int, Seq<char>, Option<Seq<char>>)>) -> bool {
    exists|i: int| 0 <= i < lis.len() && left_time_overflows(exam_left_time(html, #[trigger] lis[i].0))
}

fn exam_left_time_of(html: &str, li: usize) -> (r: String)
    ensures
        r@ == exam_left_time(html@, li as int),
{
    let dls = select_in(html, li, "dl", "");
    if dls.len() > 0 {
        assert(founds_view(dls@)[0] == crate::html::found_view(dls@[0]));
        first_trimmed_of(&select_in(html, dls[0].node, "dd", ""))
    } else {
        String::new()
    }
}

/// The rows of the exam list page at wall-clock time `now`; `None` where a
/// remaining time is more than chrono can hold.
pub fn extract_exams(html: &str, now: i128) -> (r: Option<Vec<ExamRow>>)
    ensures
        r is None <==> exam_rows_overflow(html@, exam_entries(html@)),
        r matches Some(rows) ==> exam_rows_view(rows@) == exam_rows(html@, exam_entries(html@), now as int),
{
    let lis = select_doc(html, "ul.ks_list > li", "data");
    let ghost ls = founds_view(lis@);
    let mut rows: Vec<ExamRow> = Vec::new();
    let mut k: usize = 0;
    while k < lis.len()
        invariant
            k <= lis@.len(),
            ls == founds_view(lis@),
            ls == exam_entries(html@),
            exam_rows_view(rows@) == exam_rows(html@, ls.take(k as int), now as int),
            !exam_rows_overflow(html@, ls.take(k as int)),
        decreases lis@.len() - k,
    {
        let ghost pre = ls.take(k as int);
        assert(ls.take(k + 1).drop_last() =~= pre);
        assert(ls.take(k + 1).last() == ls[k as int]);
        assert(ls[k as int] == crate::html::found_view(lis@[k as int]));
        let li = &lis[k];
        let time_left = exam_left_time_of(html, li.node);
        if left_time_too_long(time_left.as_str()) {
            assert(exam_rows_overflow(html@, ls));
            return None;
        }
        let dls = select_in(html, li.node, "dl", "");
        let title = if dls.len() > 0 {
            assert(founds_view(dls@)[0] == crate::html::found_view(dls@[0]));
            first_trimmed_of(&select_in(html, dls[0].node, "dt", ""))
        } else {
            String::new()
        };
        let imgs = select_in(html, li.node, "div.ks_pic > img", "src");
        let expired = if imgs.len() > 0 {
            assert(founds_view(imgs@)[0] == crate::html::found_view(imgs@[0]));
            match &imgs[0].attr {
                Some(src) => contains_str(src.as_str(), "ks_02"),
                None => false,
            }
        } else {
            false
        };
        let states = select_in(html, li.node, "span.ks_state", "");
        let status = if states.len() > 0 {
            assert(founds_view(states@)[0] == crate::html::found_view(states@[0]));
            states[0].text.clone()
        } else {
            String::new()
        };
        let finished = contains_str(status.as_str(), "已完成") || contains_str(status.as_str(), "待批阅");
        let raw = opt_string(&li.attr);
        let abs = absolute_of(raw.as_str());
        proof {
            reveal_strlit("mooc1-api.chaoxing.com");
        }
        let full = replace_str(abs.as_str(), "mooc1-api.chaoxing.com", "mooc1.chaoxing.com");
        let qs = query_params(full.as_str());
        let row = ExamRow {
            title,
            expired,
            finished,
            deadline: parse_left_time(time_left.as_str(), now),
            exam_id: param(&qs, "taskrefId"),
            course_id: param(&qs, "courseId"),
            class_id: param(&qs, "classId"),
            raw,
        };
        assert(row@ == exam_row_of(html@, ls[k as int], now as int));
        rows.push(row);
        assert(exam_rows_view(rows@) =~= exam_rows_view(rows@.drop_last()).push(row@));
        assert(!exam_rows_overflow(html@, ls.take(k + 1))) by {
            if exam_rows_overflow(html@, ls.take(k + 1)) {
                let i = choose|i: int| 0 <= i < ls.take(k + 1).len() && left_time_overflows(exam_left_time(html@, #[trigger] ls.take(k + 1)[i].0));
                if i < k {
                    assert(ls.take(k + 1)[i] == pre[i]);
                }
            }
        }
        k += 1;
    }
    assert(ls.take(lis@.len() as int) =~= ls);
    Some(rows)
}

/// The rows of the exam table: `table.dataTable tr.dataTr`.
pub open spec fn table_entries(html: Seq<char>) -> Seq<(int, Seq<char>, Option<Seq<char>>)> {
    scraper_select_doc(html, "table.dataTable tr.dataTr"@, ""@)
}

/// The row of an exam table line with nine or more cells: title, deadline
/// from the time range, state from the exam and answer cells, ids from the
/// action link's `onclick`.
pub open spec fn table_row_of(html: Seq<char>, cells: Seq<(int, Seq<char>, Option<Seq<char>>)>) -> ExamRowView {
    let anchors = scraper_select_in(html, cells[8].0, "a"@, "onclick"@);
    let onclick = if anchors.len() > 0 {
        opt_text(anchors[0].2)
    } else {
        Seq::empty()
    };
    ExamRowView {
        title: trim_ws(cells[1].1),
        expired: contains_seq(cells[4].1, "已结束"@),
        finished: done_state(cells[5].1),
        deadline: match regex_capture("(\\d{4}-\\d{2}-\\d{2}\\s*\\d{2}:\\d{2})"@, cells[2].1) {
            Some(c) => opt_i128(opt_joined(chrono_parse_naive(trim_ws(c), "%Y-%m-%d %H:%M"@))),
            None => None,
        },
        exam_id: opt_text(regex_capture("examId=(\\d+)"@, onclick)),
        course_id: opt_text(regex_capture("moocId=(\\d+)"@, onclick)),
        class_id: opt_text(regex_capture("clazzid=(\\d+)"@, onclick)),
        raw: Seq::empty(),
    }
}

/// The rows of the exam table (lines with fewer than nine cells give none).
pub open spec fn table_rows(html: Seq<char>, trs: Seq<(int, Seq<char>, Option<Seq<char>>)>) -> Seq<ExamRowView>
    decreases trs.len(),
{
    if trs.len() == 0 {
        Seq::empty()
    } else {
        let rest = table_rows(html, trs.drop_last());
        let cells = scraper_select_in(html, trs.last().0, "td"@, ""@);
        if cells.len() < 9 {
            rest
        } else {
            rest.push(table_row_of(html, cells))
        }
    }
}

fn capture_or_empty(pattern: &str, text: &str) -> (r: String)
    ensures
        r@ == opt_text(regex_capture(pattern@, text@)),
{
    match capture_group1(pattern, text) {
        Some(c) => c,
        None => String::new(),
    }
}

/// The rows of the exam table.
pub fn extract_exams_table(html: &str) -> (r: Vec<ExamRow>)
    ensures
        exam_rows_view(r@) == table_rows(html@, table_entries(html@)),
{
    let trs = select_doc(html, "table.dataTable tr.dataTr", "");
    let ghost ts = founds_view(trs@);
    let mut rows: Vec<ExamRow> = Vec::new();
    let mut k: usize = 0;
    while k < trs.len()
        invariant
            k <= trs@.len(),
            ts == founds_view(trs@),
            ts == table_entries(html@),
            exam_rows_view(rows@) == table_rows(html@, ts.take(k as int)),
        decreases trs@.len() - k,
    {
        assert(ts.take(k + 1).drop_last() =~= ts.take(k as int));
        assert(ts.take(k + 1).last() == ts[k as int]);
        assert(ts[k as int] == crate::html::found_view(trs@[k as int]));
        let cells = select_in(html, trs[k].node, "td", "");
        let ghost cv = founds_view(cells@);
        if cells.len() >= 9 {
            assert(cv[1] == crate::html::found_view(cells@[1]));
            assert(cv[2] == crate::html::found_view(cells@[2]));
            assert(cv[4] == crate::html::found_view(cells@[4]));
            assert(cv[5] == crate::html::found_view(cells@[5]));
            assert(cv[8] == crate::html::found_view(cells@[8]));
            let title = trim(cells[1].text.as_str());
            let expired = contains_str(cells[4].text.as_str(), "已结束");
            let finished = contains_str(cells[5].text.as_str(), "已完成") || contains_str(
                cells[5].text.as_str(),
                "待批阅",
            );
            let anchors = select_in(html, cells[8].node, "a", "onclick");
            let onclick = if anchors.len() > 0 {
                assert(founds_view(anchors@)[0] == crate::html::found_view(anchors@[0]));
                opt_string(&anchors[0].attr)
            } else {
                String::new()
            };
            let deadline = match capture_group1(
                "(\\d{4}-\\d{2}-\\d{2}\\s*\\d{2}:\\d{2})",
                cells[2].text.as_str(),
            ) {
                Some(c) => {
                    let t = trim(c.as_str());
                    joined(parse_naive(t.as_str(), "%Y-%m-%d %H:%M"))
                },
                None => None,
            };
            let row = ExamRow {
                title,
                expired,
                finished,
                deadline,
                exam_id: capture_or_empty("examId=(\\d+)", onclick.as_str()),
                course_id: capture_or_empty("moocId=(\\d+)", onclick.as_str()),
                class_id: capture_or_empty("clazzid=(\\d+)", onclick.as_str()),
                raw: String::new(),
            };
            assert(row@ == table_row_of(html@, cv));
            rows.push(row);
            assert(exam_rows_view(rows@) =~= exam_rows_view(rows@.drop_last()).push(row@));
        }
        k += 1;
    }
    assert(ts.take(trs@.len() as int) =~= ts);
    rows
}

/// The `workEnc` value of a course page, when it has a non-empty one.
pub open spec fn spec_work_enc(html: Seq<char>) -> Option<Seq<char>> {
    let es = scraper_select_doc(html, "#workEnc"@, "value"@);
    let enc = if es.len() > 0 {
        opt_text(es[0].2)
    } else {
        Seq::empty()
    };
    if enc.len() == 0 {
        None
    } else {
        Some(enc)
    }
}

/// The `workEnc` value of a course page; without it the course's work list
/// is not requested.
pub fn work_enc(html: &str) -> (r: Option<String>)
    ensures
        r matches Some(e) ==> spec_work_enc(html@) == Some(e@),
        r is None ==> spec_work_enc(html@) is None,
{
    let es = select_doc(html, "#workEnc", "value");
    let enc = if es.len() > 0 {
        assert(founds_view(es@)[0] == crate::html::found_view(es@[0]));
        opt_string(&es[0].attr)
    } else {
        String::new()
    };
    if enc.as_str().is_empty() {
        None
    } else {
        Some(enc)
    }
}

/// The key under which a work's page is found: course id, `_`, work id.
pub open spec fn work_key(course_id: Seq<char>, work_id: Seq<char>) -> Seq<char> {
    course_id + "_"@ + work_id
}

fn work_key_of(course_id: &str, work_id: &str) -> (r: String)
    ensures
        r@ == work_key(course_id@, work_id@),
{
    let mut k = String::from_str(course_id);
    k.append("_");
    k.append(work_id);
    k
}

/// The value of the first entry with the given key.
pub open spec fn lookup_first(entries: Seq<(Seq<char>, Seq<char>)>, key: Seq<char>) -> Option<Seq<char>>
    decreases entries.len(),
{
    if entries.len() == 0 {
        None
    } else if entries[0].0 == key {
        Some(entries[0].1)
    } else {
        lookup_first(entries.drop_first(), key)
    }
}

/// The value of the first entry with the given key.
pub fn lookup(entries: &Vec<(String, String)>, key: &str) -> (r: Option<String>)
    ensures
        r matches Some(v) ==> lookup_first(pair_views(entries@), key@) == Some(v@),
        r is None ==> lookup_first(pair_views(entries@), key@) is None,
{
    let mut i: usize = 0;
    assert(pair_views(entries@).skip(0) =~= pair_views(entries@));
    while i < entries.len()
        invariant
            i <= entries@.len(),
            lookup_first(pair_views(entries@), key@) == lookup_first(pair_views(entries@).skip(i as int), key@),
        decreases entries@.len() - i,
    {
        assert(pair_views(entries@).skip(i as int).drop_first() =~= pair_views(entries@).skip(i + 1));
        assert(pair_views(entries@).skip(i as int)[0] == (entries@[i as int].0@, entries@[i as int].1@));
        if str_eq(entries[i].0.as_str(), key) {
            return Some(entries[i].1.clone());
        }
        i += 1;
    }
    None
}

/// The work pages of a course's work list: for each `li` with a `data` link
/// and a non-empty title, the link as shown under the key of its `workId`;
/// the first link of a key stays.
pub open spec fn work_entries(
    course_id: Seq<char>,
    html: Seq<char>,
    lis: Seq<(int, Seq<char>, Option<Seq<char>>)>,
) -> Seq<(Seq<char>, Seq<char>)>
    decreases lis.len(),
{
    if lis.len() == 0 {
        Seq::empty()
    } else {
        let rest = work_entries(course_id, html, lis.drop_last());
        let li = lis.last();
        let data = opt_text(li.2);
        let title = first_trimmed(scraper_select_in(html, li.0, "p"@, ""@));
        let work_id = spec_param(spec_query_params(data), "workId"@);
        let key = work_key(course_id, work_id);
        if data.len() == 0 || title.len() == 0 || work_id.len() == 0 || lookup_first(rest, key) is Some {
            rest
        } else {
            rest.push((key, spec_fix_url(data)))
        }
    }
}

/// The work pages of a course's work list.
pub fn work_urls(course_id: &str, html: &str) -> (r: Vec<(String, String)>)
    ensures
        pair_views(r@) == work_entries(course_id@, html@, scraper_select_doc(html@, "li"@, "data"@)),
{
    let lis = select_doc(html, "li", "data");
    let ghost ls = founds_view(lis@);
    let mut r: Vec<(String, String)> = Vec::new();
    let mut k: usize = 0;
    while k < lis.len()
        invariant
            k <= lis@.len(),
            ls == founds_view(lis@),
            ls == scraper_select_doc(html@, "li"@, "data"@),
            pair_views(r@) == work_entries(course_id@, html@, ls.take(k as int)),
        decreases lis@.len() - k,
    {
        assert(ls.take(k + 1).drop_last() =~= ls.take(k as int));
        assert(ls.take(k + 1).last() == ls[k as int]);
        assert(ls[k as int] == crate::html::found_view(lis@[k as int]));
        let li = &lis[k];
        let data = opt_string(&li.attr);
        if !data.as_str().is_empty() {
            let title = first_trimmed_of(&select_in(html, li.node, "p", ""));
            if !title.as_str().is_empty() {
                let qs = query_params(data.as_str());
                let work_id = param(&qs, "workId");
                if !work_id.as_str().is_empty() {
                    let key = work_key_of(course_id, work_id.as_str());
                    if lookup(&r, key.as_str()).is_none() {
                        let full = fix_url(data.as_str());
                        let ghost before = pair_views(r@);
                        r.push((key, full));
                        assert(pair_views(r@) =~= before.push((key@, full@)));
                    }
                }
            }
        }
        k += 1;
    }
    assert(ls.take(lis@.len() as int) =~= ls);
    r
}

/// The item of a homework row: its page from the work list, else the course
/// page, else its own link.
pub open spec fn hw_item(row: HwRowView, work: Seq<(Seq<char>, Seq<char>)>) -> HomeworkView {
    HomeworkView {
        title: row.title,
        course: row.course,
        deadline: row.deadline,
        platform: chaoxing_platform(),
        submitted: !row.uncommitted,
        url: match lookup_first(work, work_key(row.course_id, row.work_id)) {
            Some(u) => u,
            None => if row.course_id.len() > 0 && row.clazz_id.len() > 0 {
                homework_url(row.course_id, row.clazz_id)
            } else {
                spec_fix_url(row.raw)
            },
        },
    }
}

/// The items of the homework rows, in order.
pub fn homework_items(rows: &[HwRow], work: &Vec<(String, String)>) -> (r: Vec<HomeworkItem>)
    ensures
        items_view(r@) == hw_rows_view(rows@).map_values(|row: HwRowView| hw_item(row, pair_views(work@))),
{
    let mut r: Vec<HomeworkItem> = Vec::new();
    let mut k: usize = 0;
    while k < rows.len()
        invariant
            k <= rows@.len(),
            items_view(r@) == hw_rows_view(rows@.take(k as int)).map_values(|row: HwRowView| hw_item(row, pair_views(work@))),
        decreases rows@.len() - k,
    {
        let row = &rows[k];
        let key = work_key_of(row.course_id.as_str(), row.work_id.as_str());
        let url = match lookup(work, key.as_str()) {
            Some(u) => u,
            None => if !row.course_id.as_str().is_empty() && !row.clazz_id.as_str().is_empty() {
                build_homework_url(row.course_id.as_str(), row.clazz_id.as_str())
            } else {
                fix_url(row.raw.as_str())
            },
        };
        let h = HomeworkItem {
            title: row.title.clone(),
            course: row.course.clone(),
            deadline: row.deadline,
            platform: String::from_str("超星"),
            submitted: !row.uncommitted,
            url,
        };
        assert(h@ == hw_item(row@, pair_views(work@)));
        let ghost ib = items_view(r@);
        r.push(h);
        assert(items_view(r@) =~= ib.push(h@));
        assert(hw_rows_view(rows@.take(k + 1)) =~= hw_rows_view(rows@.take(k as int)).push(rows@[k as int]@));
        k += 1;
        assert(items_view(r@) =~= hw_rows_view(rows@.take(k as int)).map_values(|row: HwRowView| hw_item(row, pair_views(work@))));
    }
    assert(rows@.take(rows@.len() as int) =~= rows@);
    r
}

/// The key under which exams are told apart: the exam id, else the title.
pub open spec fn exam_key(row: ExamRowView) -> Seq<char> {
    if row.exam_id.len() == 0 {
        row.title
    } else {
        row.exam_id
    }
}

/// The link of an exam: its notes page when all ids are known, else (on the
/// list page) its own link, or nothing (in the table).
pub open spec fn exam_link(row: ExamRowView, from_list: bool) -> Seq<char> {
    if row.course_id.len() > 0 && row.class_id.len() > 0 && row.exam_id.len() > 0 {
        exam_url(row.course_id, row.class_id, row.exam_id)
    } else if from_list {
        spec_fix_url(row.raw)
    } else {
        Seq::empty()
    }
}

/// The item of an exam row.
pub open spec fn exam_item(row: ExamRowView, from_list: bool) -> HomeworkView {
    HomeworkView {
        title: row.title,
        course: "考试"@,
        deadline: row.deadline,
        platform: chaoxing_platform(),
        submitted: false,
        url: exam_link(row, from_list),
    }
}

/// The keys seen and the items listed after a run of exam rows: each key is
/// listed once, at its first row, unless that row is finished or expired
/// (which still marks the key as seen).
pub open spec fn exam_pass(
    seen: Seq<Seq<char>>,
    rows: Seq<ExamRowView>,
    from_list: bool,
) -> (Seq<Seq<char>>, Seq<HomeworkView>)
    decreases rows.len(),
{
    if rows.len() == 0 {
        (seen, Seq::empty())
    } else {
        let (s, items) = exam_pass(seen, rows.drop_last(), from_list);
        let row = rows.last();
        let key = exam_key(row);
        if s.contains(key) {
            (s, items)
        } else if row.finished || row.expired {
            (s.push(key), items)
        } else {
            (s.push(key), items.push(exam_item(row, from_list)))
        }
    }
}

pub open spec fn string_views(v: Seq<String>) -> Seq<Seq<char>> {
    v.map_values(|s: String| s@)
}

fn contains_string(v: &Vec<String>, s: &str) -> (r: bool)
    ensures
        r == string_views(v@).contains(s@),
{
    let mut i: usize = 0;
    while i < v.len()
        invariant
            i <= v@.len(),
            forall|j: int| 0 <= j < i ==> v@[j]@ != s@,
        decreases v@.len() - i,
    {
        if str_eq(v[i].as_str(), s) {
            assert(string_views(v@)[i as int] == s@);
            return true;
        }
        i += 1;
    }
    assert(!string_views(v@).contains(s@)) by {
        if string_views(v@).contains(s@) {
            let j = choose|j: int| 0 <= j < string_views(v@).len() && string_views(v@)[j] == s@;
            assert(v@[j]@ == s@);
        }
    }
    false
}

/// The items of a run of exam rows, given the keys already seen (which the
/// run adds to).
pub fn exam_items(seen: &mut Vec<String>, rows: &[ExamRow], from_list: bool) -> (r: Vec<HomeworkItem>)
    ensures
        (string_views(final(seen)@), items_view(r@)) == exam_pass(string_views(old(seen)@), exam_rows_view(rows@), from_list),
{
    let ghost s0 = string_views(seen@);
    let mut r: Vec<HomeworkItem> = Vec::new();
    let mut k: usize = 0;
    while k < rows.len()
        invariant
            k <= rows@.len(),
            (string_views(seen@), items_view(r@)) == exam_pass(s0, exam_rows_view(rows@.take(k as int)), from_list),
        decreases rows@.len() - k,
    {
        assert(exam_rows_view(rows@.take(k + 1)).drop_last() =~= exam_rows_view(rows@.take(k as int)));
        assert(exam_rows_view(rows@.take(k + 1)).last() == rows@[k as int]@);
        let row = &rows[k];
        let key = if row.exam_id.as_str().is_empty() {
            row.title.clone()
        } else {
            row.exam_id.clone()
        };
        if !contains_string(seen, key.as_str()) {
            let ghost before = string_views(seen@);
            seen.push(key);
            assert(string_views(seen@) =~= before.push(exam_key(row@)));
            if !row.finished && !row.expired {
                let url = if !row.course_id.as_str().is_empty() && !row.class_id.as_str().is_empty()
                    && !row.exam_id.as_str().is_empty() {
                    build_exam_url(row.course_id.as_str(), row.class_id.as_str(), row.exam_id.as_str())
                } else if from_list {
                    fix_url(row.raw.as_str())
                } else {
                    String::new()
                };
                let h = HomeworkItem {
                    title: row.title.clone(),
                    course: String::from_str("考试"),
                    deadline: row.deadline,
                    platform: String::from_str("超星"),
                    submitted: false,
                    url,
                };
                assert(h@ == exam_item(row@, from_list));
                let ghost ib = items_view(r@);
                r.push(h);
                assert(items_view(r@) =~= ib.push(h@));
            }
        }
        k += 1;
    }
    assert(rows@.take(rows@.len() as int) =~= rows@);
    r
}

/// Duplicate-free keys stay duplicate-free, keys seen before stay seen, and
/// each listed exam adds a key of its own: at most one item per key.
pub proof fn lemma_exams_listed_once(seen: Seq<Seq<char>>, rows: Seq<ExamRowView>, from_list: bool)
    requires
        seen.no_duplicates(),
    ensures
        exam_pass(seen, rows, from_list).0.no_duplicates(),
        forall|i: int|
            0 <= i < seen.len() ==> exam_pass(seen, rows, from_list).0.contains(#[trigger] seen[i]),
        exam_pass(seen, rows, from_list).1.len() + seen.len() <= exam_pass(seen, rows, from_list).0.len(),
        exam_pass(seen, rows, from_list).0.len() <= seen.len() + rows.len(),
    decreases rows.len(),
{
    if rows.len() > 0 {
        lemma_exams_listed_once(seen, rows.drop_last(), from_list);
        let s = exam_pass(seen, rows.drop_last(), from_list).0;
        let key = exam_key(rows.last());
        if !s.contains(key) {
            assert(s.push(key).no_duplicates()) by {
                assert forall|a: int, b: int| 0 <= a < b < s.push(key).len() implies s.push(key)[a] != s.push(key)[b] by {
                    if b == s.len() {
                        assert(s.push(key)[a] == s[a]);
                    }
                }
            }
        }
        assert forall|i: int| 0 <= i < seen.len() implies exam_pass(seen, rows, from_list).0.contains(#[trigger] seen[i]) by {
            assert(s.contains(seen[i]));
            let k = choose|k: int| 0 <= k < s.len() && s[k] == seen[i];
            if !s.contains(key) {
                assert(s.push(key)[k] == seen[i]);
            }
        }
    }
}

/// A course of the course list.
pub struct CxCourse {
    pub course_id: String,
    pub course_name: String,
    pub clazz_id: String,
    pub cpi: String,
}

/// What a course holds: id, name, class id, `cpi`.
pub open spec fn cx_view(c: CxCourse) -> (Seq<char>, Seq<char>, Seq<char>, Seq<char>) {
    (c.course_id@, c.course_name@, c.clazz_id@, c.cpi@)
}

pub open spec fn cx_views(cs: Seq<CxCourse>) -> Seq<(Seq<char>, Seq<char>, Seq<char>, Seq<char>)> {
    cs.map_values(|c: CxCourse| cx_view(c))
}

fn copy_course(c: &CxCourse) -> (r: CxCourse)
    ensures
        cx_view(r) == cx_view(*c),
{
    CxCourse {
        course_id: c.course_id.clone(),
        course_name: c.course_name.clone(),
        clazz_id: c.clazz_id.clone(),
        cpi: c.cpi.clone(),
    }
}

/// A pointer step `0` (serde_json `pointer`): member `"0"` of an object,
/// first element of an array.
pub open spec fn spec_token0(v: Option<JsonValue>) -> Option<JsonValue> {
    match v {
        Some(JsonValue::Object(es)) => crate::json::entries_get(es@, "0"@),
        Some(JsonValue::Array(a)) => if a@.len() > 0 {
            Some(a@[0])
        } else {
            None
        },
        _ => None,
    }
}

fn token0(v: Option<&JsonValue>) -> (r: Option<&JsonValue>)
    ensures
        r matches Some(x) ==> spec_token0(crate::json::opt_val(v)) == Some(*x),
        r is None ==> spec_token0(crate::json::opt_val(v)) is None,
{
    match v {
        Some(x) => match x {
            JsonValue::Object(_) => x.get("0"),
            JsonValue::Array(a) => if a.len() > 0 {
                Some(&a[0])
            } else {
                None
            },
            _ => None,
        },
        None => None,
    }
}

/// The course data of a channel's content: `course.data.0`, else
/// `course.data`; an object is the course, an array gives its first element.
pub open spec fn course_info(content: JsonValue) -> Option<JsonValue> {
    let data = spec_get_opt(spec_get(content, "course"@), "data"@);
    let cd = match spec_token0(data) {
        Some(x) => Some(x),
        None => data,
    };
    match cd {
        Some(JsonValue::Object(es)) => Some(JsonValue::Object(es)),
        Some(JsonValue::Array(a)) => if a@.len() > 0 {
            Some(a@[0])
        } else {
            None
        },
        _ => None,
    }
}

/// The class id of a channel: `content.clazz.data.0.id`, else `content.id`,
/// else the channel's `key`, as id text.
pub open spec fn clazz_id_of(channel: JsonValue, content: JsonValue) -> Seq<char> {
    let v = match spec_get_opt(spec_token0(spec_get_opt(spec_get(content, "clazz"@), "data"@)), "id"@) {
        Some(x) => Some(x),
        None => match spec_get(content, "id"@) {
            Some(x) => Some(x),
            None => spec_get(channel, "key"@),
        },
    };
    match v {
        Some(x) => spec_id_text(x),
        None => Seq::empty(),
    }
}

/// The text of an id member, empty when missing.
pub open spec fn id_or_empty(v: Option<JsonValue>) -> Seq<char> {
    match v {
        Some(x) => spec_id_text(x),
        None => Seq::empty(),
    }
}

/// The course of a channel of the course list: channels without content,
/// closed (`state` 1), without course data, class id or course id give none.
pub open spec fn channel_course(channel: JsonValue) -> Option<(Seq<char>, Seq<char>, Seq<char>, Seq<char>)> {
    match spec_get(channel, "content"@) {
        None => None,
        Some(content) => if match spec_get(content, "state"@) {
            Some(st) => spec_as_i64(st) == Some(1int),
            None => false,
        } {
            None
        } else {
            match course_info(content) {
                None => None,
                Some(info) => {
                    let clazz = clazz_id_of(channel, content);
                    let cid = id_or_empty(spec_get(info, "id"@));
                    if clazz.len() == 0 || cid.len() == 0 {
                        None
                    } else {
                        Some(
                            (
                                cid,
                                match spec_str_at(Some(info), "name"@) {
                                    Some(n) => n,
                                    None => "未知课程"@,
                                },
                                clazz,
                                id_or_empty(spec_get(content, "cpi"@)),
                            ),
                        )
                    }
                },
            }
        },
    }
}

/// The courses of the channels, in order.
pub open spec fn channel_courses(chs: Seq<JsonValue>) -> Seq<(Seq<char>, Seq<char>, Seq<char>, Seq<char>)>
    decreases chs.len(),
{
    if chs.len() == 0 {
        Seq::empty()
    } else {
        match channel_course(chs.last()) {
            Some(c) => channel_courses(chs.drop_last()).push(c),
            None => channel_courses(chs.drop_last()),
        }
    }
}

/// The channels of a course-list response.
pub open spec fn channel_list(data: JsonValue) -> Seq<JsonValue> {
    match spec_get(data, "channelList"@) {
        Some(l) => match spec_as_array(l) {
            Some(a) => a,
            None => Seq::empty(),
        },
        None => Seq::empty(),
    }
}

fn id_or_empty_of(v: Option<&JsonValue>) -> (r: String)
    ensures
        r@ == id_or_empty(crate::json::opt_val(v)),
{
    match v {
        Some(x) => id_text(x),
        None => String::new(),
    }
}

fn course_of_channel(channel: &JsonValue) -> (r: Option<CxCourse>)
    ensures
        match r {
            Some(c) => channel_course(*channel) == Some(cx_view(c)),
            None => channel_course(*channel) is None,
        },
{
    let content = match channel.get("content") {
        Some(c) => c,
        None => return None,
    };
    let closed = match content.get("state") {
        Some(st) => st.as_i64() == Some(1i64),
        None => false,
    };
    if closed {
        return None;
    }
    let data = crate::json::get_opt(content.get("course"), "data");
    let cd = match token0(data) {
        Some(x) => Some(x),
        None => data,
    };
    let info = match cd {
        Some(x) => match x {
            JsonValue::Object(_) => x,
            JsonValue::Array(a) => if a.len() > 0 {
                &a[0]
            } else {
                return None;
            },
            _ => return None,
        },
        None => return None,
    };
    let idv = match crate::json::get_opt(token0(crate::json::get_opt(content.get("clazz"), "data")), "id") {
        Some(x) => Some(x),
        None => match content.get("id") {
            Some(x) => Some(x),
            None => channel.get("key"),
        },
    };
    let clazz = id_or_empty_of(idv);
    if clazz.as_str().is_empty() {
        return None;
    }
    let cid = id_or_empty_of(info.get("id"));
    if cid.as_str().is_empty() {
        return None;
    }
    let name = match str_at(Some(info), "name") {
        Some(n) => String::from_str(n),
        None => String::from_str("未知课程"),
    };
    let cpi = id_or_empty_of(content.get("cpi"));
    Some(CxCourse { course_id: cid, course_name: name, clazz_id: clazz, cpi })
}

/// The courses of a course-list response, in order.
pub fn courses_from_response(data: &JsonValue) -> (r: Vec<CxCourse>)
    ensures
        cx_views(r@) == channel_courses(channel_list(*data)),
{
    let chs: &[JsonValue] = match data.get("channelList") {
        Some(l) => match l.as_array() {
            Some(a) => a.as_slice(),
            None => &[],
        },
        None => &[],
    };
    let mut r: Vec<CxCourse> = Vec::new();
    let mut k: usize = 0;
    while k < chs.len()
        invariant
            k <= chs@.len(),
            chs@ == channel_list(*data),
            cx_views(r@) == channel_courses(chs@.take(k as int)),
        decreases chs@.len() - k,
    {
        assert(chs@.take(k + 1).drop_last() =~= chs@.take(k as int));
        match course_of_channel(&chs[k]) {
            Some(c) => {
                let ghost before = cx_views(r@);
                r.push(c);
                assert(cx_views(r@) =~= before.push(cx_view(c)));
            },
            None => {},
        }
        k += 1;
    }
    assert(chs@.take(chs@.len() as int) =~= chs@);
    r
}

/// The course ids whose work lists are needed: those of rows with a course id
/// and a work id, each once, in order of first appearance.
pub open spec fn needed_courses(rows: Seq<HwRowView>) -> Seq<Seq<char>>
    decreases rows.len(),
{
    if rows.len() == 0 {
        Seq::empty()
    } else {
        let rest = needed_courses(rows.drop_last());
        let row = rows.last();
        if row.course_id.len() > 0 && row.work_id.len() > 0 && !rest.contains(row.course_id) {
            rest.push(row.course_id)
        } else {
            rest
        }
    }
}

/// The course ids whose work lists are needed.
pub fn needed_course_ids(rows: &[HwRow]) -> (r: Vec<String>)
    ensures
        string_views(r@) == needed_courses(hw_rows_view(rows@)),
{
    let mut r: Vec<String> = Vec::new();
    let mut k: usize = 0;
    while k < rows.len()
        invariant
            k <= rows@.len(),
            string_views(r@) == needed_courses(hw_rows_view(rows@.take(k as int))),
        decreases rows@.len() - k,
    {
        assert(hw_rows_view(rows@.take(k + 1)).drop_last() =~= hw_rows_view(rows@.take(k as int)));
        assert(hw_rows_view(rows@.take(k + 1)).last() == rows@[k as int]@);
        let row = &rows[k];
        if !row.course_id.as_str().is_empty() && !row.work_id.as_str().is_empty() && !contains_string(
            &r,
            row.course_id.as_str(),
        ) {
            let ghost before = string_views(r@);
            r.push(row.course_id.clone());
            assert(string_views(r@) =~= before.push(row.course_id@));
        }
        k += 1;
    }
    assert(rows@.take(rows@.len() as int) =~= rows@);
    r
}

/// The position of the course with the given id: the last one wins.
pub open spec fn course_position(cs: Seq<CxCourse>, id: Seq<char>) -> Option<int>
    decreases cs.len(),
{
    if cs.len() == 0 {
        None
    } else if cs.last().course_id@ == id {
        Some(cs.len() - 1)
    } else {
        course_position(cs.drop_last(), id)
    }
}

/// The position of the course with the given id.
pub fn find_course(cs: &[CxCourse], id: &str) -> (r: Option<usize>)
    ensures
        match r {
            Some(i) => course_position(cs@, id@) == Some(i as int),
            None => course_position(cs@, id@) is None,
        },
{
    let mut i: usize = cs.len();
    assert(cs@.take(i as int) =~= cs@);
    while i > 0
        invariant
            i <= cs@.len(),
            course_position(cs@, id@) == course_position(cs@.take(i as int), id@),
        decreases i,
    {
        assert(cs@.take(i as int).drop_last() =~= cs@.take(i - 1));
        if str_eq(cs[i - 1].course_id.as_str(), id) {
            return Some(i - 1);
        }
        i -= 1;
    }
    None
}

/// A channel that is not closed: its content's `state` is not 1.
pub open spec fn channel_open(channel: JsonValue) -> bool {
    match spec_get(channel, "content"@) {
        Some(content) => !match spec_get(content, "state"@) {
            Some(st) => spec_as_i64(st) == Some(1int),
            None => false,
        },
        None => false,
    }
}

proof fn lemma_channel_courses_come_from_channels(chs: Seq<JsonValue>)
    ensures
        forall|i: int|
            0 <= i < channel_courses(chs).len() ==> {
                let c = #[trigger] channel_courses(chs)[i];
                &&& c.0.len() > 0
                &&& c.2.len() > 0
                &&& exists|j: int| 0 <= j < chs.len() && channel_open(chs[j]) && channel_course(chs[j]) == Some(c)
            },
    decreases chs.len(),
{
    if chs.len() > 0 {
        let p = chs.drop_last();
        lemma_channel_courses_come_from_channels(p);
        let cs = channel_courses(chs);
        let cp = channel_courses(p);
        assert forall|i: int| 0 <= i < cs.len() implies {
            let c = #[trigger] cs[i];
            &&& c.0.len() > 0
            &&& c.2.len() > 0
            &&& exists|j: int| 0 <= j < chs.len() && channel_open(chs[j]) && channel_course(chs[j]) == Some(c)
        } by {
            if i < cp.len() {
                assert(cs[i] == cp[i]);
                let c = cp[i];
                let j = choose|j: int| 0 <= j < p.len() && channel_open(p[j]) && channel_course(p[j]) == Some(c);
                assert(chs[j] == p[j]);
            } else {
                let j = chs.len() - 1;
                assert(channel_course(chs[j]) == Some(cs[i]));
            }
        }
    }
}

/// The course list is read once per client: after a non-empty list has been
/// kept, no further list is needed and the kept list is the one returned. Each
/// kept course has a course id and a class id, and comes from a channel that
/// is not closed.
pub proof fn lemma_course_list_kept(before: ChaoxingState, after: ChaoxingState, data: JsonValue)
    requires
        after == (ChaoxingState { courses: channel_courses(channel_list(data)), ..before }),
        channel_courses(channel_list(data)).len() > 0,
    ensures
        after.courses.len() != 0,
        after.courses == channel_courses(channel_list(data)),
        after.user == before.user && after.password == before.password,
        forall|i: int|
            0 <= i < after.courses.len() ==> {
                let c = #[trigger] after.courses[i];
                &&& c.0.len() > 0
                &&& c.2.len() > 0
                &&& exists|j: int|
                    0 <= j < channel_list(data).len() && channel_open(channel_list(data)[j])
                        && channel_course(channel_list(data)[j]) == Some(c)
            },
{
    lemma_channel_courses_come_from_channels(channel_list(data));
}

/// Login state and the course list, read once per client.
pub struct ChaoxingClient {
    user: String,
    password: String,
    courses: Vec<CxCourse>,
}

/// What a Chaoxing client holds.
pub struct ChaoxingState {
    pub user: Seq<char>,
    pub password: Seq<char>,
    pub courses: Seq<(Seq<char>, Seq<char>, Seq<char>, Seq<char>)>,
}

impl View for ChaoxingClient {
    type V = ChaoxingState;

    closed spec fn view(&self) -> ChaoxingState {
        ChaoxingState { user: self.user@, password: self.password@, courses: cx_views(self.courses@) }
    }
}

/// The login response says the login succeeded (`result` is true).
pub open spec fn spec_login_ok(data: JsonValue) -> bool {
    match spec_get(data, "result"@) {
        Some(v) => spec_as_bool(v) == Some(true),
        None => false,
    }
}

/// Whether the login response says the login succeeded.
pub fn login_ok(data: &JsonValue) -> (r: bool)
    ensures
        r == spec_login_ok(*data),
{
    match data.get("result") {
        Some(v) => v.as_bool() == Some(true),
        None => false,
    }
}

impl ChaoxingClient {
    /// A client for an account, with no course list read yet.
    pub fn new(user: &str, password: &str) -> (r: Self)
        ensures
            r@.user == user@,
            r@.password == password@,
            r@.courses.len() == 0,
    {
        ChaoxingClient { user: String::from_str(user), password: String::from_str(password), courses: Vec::new() }
    }

    pub fn user(&self) -> (r: &str)
        ensures
            r@ == self@.user,
    {
        self.user.as_str()
    }

    pub fn password(&self) -> (r: &str)
        ensures
            r@ == self@.password,
    {
        self.password.as_str()
    }

    /// The course list must be requested: none is kept yet.
    pub fn needs_courses(&self) -> (r: bool)
        ensures
            r == (self@.courses.len() == 0),
    {
        self.courses.len() == 0
    }

    /// Keeps the course list read from a course-list response and returns a
    /// copy of it.
    pub fn store_courses(&mut self, data: &JsonValue) -> (r: Vec<CxCourse>)
        ensures
            cx_views(r@) == channel_courses(channel_list(*data)),
            final(self)@ == (ChaoxingState { courses: cx_views(r@), ..old(self)@ }),
    {
        let cs = courses_from_response(data);
        let copy = self.copy_of(&cs);
        self.courses = cs;
        copy
    }

    /// A copy of the kept course list.
    pub fn courses(&self) -> (r: Vec<CxCourse>)
        ensures
            cx_views(r@) == self@.courses,
    {
        self.copy_of(&self.courses)
    }

    fn copy_of(&self, cs: &Vec<CxCourse>) -> (r: Vec<CxCourse>)
        ensures
            cx_views(r@) == cx_views(cs@),
    {
        let mut r: Vec<CxCourse> = Vec::new();
        let mut k: usize = 0;
        while k < cs.len()
            invariant
                k <= cs@.len(),
                cx_views(r@) == cx_views(cs@.take(k as int)),
            decreases cs@.len() - k,
        {
            let c = copy_course(&cs[k]);
            let ghost before = cx_views(r@);
            r.push(c);
            assert(cx_views(r@) =~= before.push(cx_view(cs@[k as int])));
            assert(cx_views(cs@.take(k + 1)) =~= cx_views(cs@.take(k as int)).push(cx_view(cs@[k as int])));
            k += 1;
        }
        assert(cs@.take(cs@.len() as int) =~= cs@);
        r
    }
}

/// The state text of an exam entry: the text of its first `span.ks_state`.
pub open spec fn exam_state_text(html: Seq<char>, li: (int, Seq<char>, Option<Seq<char>>)) -> Seq<char> {
    let states = scraper_select_in(html, li.0, "span.ks_state"@, ""@);
    if states.len() > 0 {
        states[0].1
    } else {
        Seq::empty()
    }
}

/// An exam on the exam list page is finished exactly when its state says it
/// is done (`已完成`) or awaits grading (`待批阅`); a finished exam is then
/// not listed (see `exam_pass`).
pub proof fn lemma_exam_finished_by_state(
    html: Seq<char>,
    lis: Seq<(int, Seq<char>, Option<Seq<char>>)>,
    now: int,
    i: int,
)
    requires
        0 <= i < lis.len(),
    ensures
        exam_rows(html, lis, now).len() == lis.len(),
        exam_rows(html, lis, now)[i].finished <==> (contains_seq(exam_state_text(html, lis[i]), "已完成"@)
            || contains_seq(exam_state_text(html, lis[i]), "待批阅"@)),
    decreases lis.len(),
{
    let p = lis.drop_last();
    let r = exam_rows(html, p, now);
    assert(exam_rows(html, lis, now) == r.push(exam_row_of(html, lis.last(), now)));
    if p.len() > 0 {
        lemma_exam_finished_by_state(html, p, now, if i < p.len() { i } else { 0 });
    } else {
        assert(r.len() == 0);
    }
    if i < p.len() {
        assert(p[i] == lis[i]);
    } else {
        assert(exam_rows(html, lis, now)[i] == exam_row_of(html, lis[i], now));
    }
}

/// An exam pass lists only exams that are neither finished nor expired: each
/// listed item is the item of such a row.
pub proof fn lemma_exam_pass_lists_open_exams(seen: Seq<Seq<char>>, rows: Seq<ExamRowView>, from_list: bool)
    ensures
        forall|j: int|
            0 <= j < exam_pass(seen, rows, from_list).1.len() ==> exists|i: int|
                0 <= i < rows.len() && !rows[i].finished && !rows[i].expired
                    && #[trigger] exam_pass(seen, rows, from_list).1[j] == exam_item(rows[i], from_list),
    decreases rows.len(),
{
    if rows.len() > 0 {
        let p = rows.drop_last();
        lemma_exam_pass_lists_open_exams(seen, p, from_list);
        let items = exam_pass(seen, rows, from_list).1;
        let before = exam_pass(seen, p, from_list).1;
        assert forall|j: int| 0 <= j < items.len() implies exists|i: int|
            0 <= i < rows.len() && !rows[i].finished && !rows[i].expired && #[trigger] items[j]
                == exam_item(rows[i], from_list) by {
            if j < before.len() {
                assert(items[j] == before[j]);
                let i = choose|i: int|
                    0 <= i < p.len() && !p[i].finished && !p[i].expired && #[trigger] before[j]
                        == exam_item(p[i], from_list);
                assert(rows[i] == p[i]);
            } else {
                assert(items[j] == exam_item(rows.last(), from_list));
                assert(rows[rows.len() - 1] == rows.last());
            }
        }
    }
}

} // verus!
