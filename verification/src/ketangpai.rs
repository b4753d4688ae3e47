//! Ketangpai: login state, the current term's courses, and the homework list
//! of a course.

use vstd::prelude::*;
use vstd::string::*;
use crate::json::{
    get_opt, spec_as_array, spec_as_i64, spec_as_str, spec_get, spec_get_opt,
    spec_json_int, spec_str_at, str_at, json_int, JsonValue,
};
use crate::models::{items_view, HomeworkItem, HomeworkView};
use crate::text::{dec_int, fmt_i64, parse_i64, spec_parse_i64};
use crate::time::{
    chrono_representable, join_nanos, join_time, local_shift_holds, local_year_month,
    timestamp_to_local_naive,
};

verus! {

/// The platform's name on its items.
pub open spec fn ketangpai_platform() -> Seq<char> {
    "课堂派"@
}

/// The message of a successful API call.
pub open spec fn ok_message() -> Seq<char> {
    "访问成功"@
}

/// The API call succeeded.
pub open spec fn response_ok(data: JsonValue) -> bool {
    spec_str_at(Some(data), "message"@) == Some(ok_message())
}

pub fn is_response_ok(data: &JsonValue) -> (r: bool)
    ensures
        r == response_ok(*data),
{
    match str_at(Some(data), "message") {
        Some(m) => crate::json::str_eq(m, "访问成功"),
        None => false,
    }
}

/// Login state: the account and, once logged in, the API token.
pub struct KetangpaiClient {
    email: String,
    password: String,
    token: Option<String>,
}

/// What a Ketangpai client holds.
pub struct KetangpaiState {
    pub email: Seq<char>,
    pub password: Seq<char>,
    pub token: Option<Seq<char>>,
}

pub open spec fn opt_string_view(s: Option<String>) -> Option<Seq<char>> {
    match s {
        Some(x) => Some(x@),
        None => None,
    }
}

impl View for KetangpaiClient {
    type V = KetangpaiState;

    closed spec fn view(&self) -> KetangpaiState {
        KetangpaiState {
            email: self.email@,
            password: self.password@,
            token: opt_string_view(self.token),
        }
    }
}

impl KetangpaiClient {
    /// A client for an account, not logged in.
    pub fn new(email: &str, password: &str) -> (r: Self)
        ensures
            r@.email == email@,
            r@.password == password@,
            r@.token is None,
    {
        KetangpaiClient { email: String::from_str(email), password: String::from_str(password), token: None }
    }

    pub fn email(&self) -> (r: &str)
        ensures
            r@ == self@.email,
    {
        self.email.as_str()
    }

    pub fn password(&self) -> (r: &str)
        ensures
            r@ == self@.password,
    {
        self.password.as_str()
    }

    /// The API token, once logged in.
    pub fn token(&self) -> (r: Option<&str>)
        ensures
            r matches Some(t) ==> self@.token == Some(t@),
            r is None ==> self@.token is None,
    {
        match &self.token {
            Some(t) => Some(t.as_str()),
            None => None,
        }
    }

    /// Takes the login response: on success keeps its `data.token` and
    /// returns `true`; otherwise leaves the state as it was.
    pub fn login_from_response(&mut self, data: &JsonValue) -> (r: bool)
        ensures
            r == response_ok(*data),
            r ==> final(self)@.token == spec_str_at(spec_get(*data, "data"@), "token"@),
            r ==> final(self)@.email == old(self)@.email && final(self)@.password == old(self)@.password,
            !r ==> final(self)@ == old(self)@,
    {
        if is_response_ok(data) {
            self.token = match str_at(data.get("data"), "token") {
                Some(t) => Some(String::from_str(t)),
                None => None,
            };
            true
        } else {
            false
        }
    }
}

/// The term whose courses are listed: `Y-1`-`Y` from February to July, else
/// `Y`-`Y+1`.
pub open spec fn spec_current_term(year: int, month: int) -> Seq<char> {
    if 2 <= month <= 7 {
        dec_int(year - 1) + "-"@ + dec_int(year)
    } else {
        dec_int(year) + "-"@ + dec_int(year + 1)
    }
}

/// The term whose courses are listed.
pub fn current_term(year: i32, month: u32) -> (r: String)
    ensures
        r@ == spec_current_term(year as int, month as int),
{
    let (a, b) = if 2 <= month && month <= 7 {
        (year as i64 - 1, year as i64)
    } else {
        (year as i64, year as i64 + 1)
    };
    let mut r = fmt_i64(a);
    r.append("-");
    let t = fmt_i64(b);
    r.append(t.as_str());
    r
}

/// The term whose courses are listed now.
pub fn current_term_now() -> (r: String)
    ensures
        exists|y: int, m: int| 1 <= m <= 12 && r@ == spec_current_term(y, m),
{
    let (y, m) = local_year_month();
    current_term(y, m)
}

/// A course of the term.
pub open spec fn in_term(course: JsonValue, term: Seq<char>) -> bool {
    spec_str_at(Some(course), "semester"@) == Some(term)
}

/// Positions of the courses of the term, in order.
pub open spec fn term_positions(courses: Seq<JsonValue>, term: Seq<char>) -> Seq<int>
    decreases courses.len(),
{
    if courses.len() == 0 {
        Seq::empty()
    } else if in_term(courses.last(), term) {
        term_positions(courses.drop_last(), term).push(courses.len() - 1)
    } else {
        term_positions(courses.drop_last(), term)
    }
}

/// The course list of a course-list response (empty when the call failed or
/// the list is missing).
pub open spec fn course_list(data: JsonValue) -> Seq<JsonValue> {
    if !response_ok(data) {
        Seq::empty()
    } else {
        match spec_get(data, "data"@) {
            Some(d) => match spec_as_array(d) {
                Some(a) => a,
                None => Seq::empty(),
            },
            None => Seq::empty(),
        }
    }
}

/// The courses of a course-list response (empty when the call failed).
pub fn course_list_of(data: &JsonValue) -> (r: &[JsonValue])
    ensures
        r@ == course_list(*data),
{
    if !is_response_ok(data) {
        return &[];
    }
    match data.get("data") {
        Some(d) => match d.as_array() {
            Some(a) => a.as_slice(),
            None => &[],
        },
        None => &[],
    }
}

/// Positions of the courses of the given term in a course list.
pub fn term_course_positions(courses: &[JsonValue], term: &str) -> (r: Vec<usize>)
    ensures
        r@.map_values(|i: usize| i as int) == term_positions(courses@, term@),
{
    let mut r: Vec<usize> = Vec::new();
    let mut k: usize = 0;
    while k < courses.len()
        invariant
            k <= courses@.len(),
            r@.map_values(|i: usize| i as int) == term_positions(courses@.take(k as int), term@),
        decreases courses@.len() - k,
    {
        assert(courses@.take(k + 1).drop_last() =~= courses@.take(k as int));
        let s = str_at(Some(&courses[k]), "semester");
        let m = match s {
            Some(x) => crate::json::str_eq(x, term),
            None => false,
        };
        if m {
            r.push(k);
            assert(r@.map_values(|i: usize| i as int) =~= term_positions(courses@.take(k as int), term@).push(k as int));
        }
        k += 1;
    }
    assert(courses@.take(courses@.len() as int) =~= courses@);
    r
}

/// The id under which a course's homework is requested, when it has one.
pub open spec fn spec_course_id(course: JsonValue) -> Option<Seq<char>> {
    match spec_str_at(Some(course), "id"@) {
        Some(s) => if s.len() > 0 { Some(s) } else { None },
        None => None,
    }
}

/// The id under which a course's homework is requested; courses without one
/// are skipped.
pub fn course_id(course: &JsonValue) -> (r: Option<&str>)
    ensures
        r matches Some(s) ==> spec_course_id(*course) == Some(s@),
        r is None ==> spec_course_id(*course) is None,
{
    match str_at(Some(course), "id") {
        Some(s) => if s.is_empty() {
            None
        } else {
            Some(s)
        },
        None => None,
    }
}

/// The course's name: `coursename`, else `name`, else `未知课程`.
pub open spec fn spec_course_name(course: JsonValue) -> Seq<char> {
    let v = match spec_get(course, "coursename"@) {
        Some(x) => Some(x),
        None => spec_get(course, "name"@),
    };
    match v {
        Some(x) => match spec_as_str(x) {
            Some(s) => s,
            None => "未知课程"@,
        },
        None => "未知课程"@,
    }
}

fn course_name(course: &JsonValue) -> (r: String)
    ensures
        r@ == spec_course_name(*course),
{
    let v = match course.get("coursename") {
        Some(x) => Some(x),
        None => course.get("name"),
    };
    match v {
        Some(x) => match x.as_str() {
            Some(s) => String::from_str(s),
            None => String::from_str("未知课程"),
        },
        None => String::from_str("未知课程"),
    }
}

/// A homework entry is submitted when its `mstatus` reads as a non-zero
/// integer (`timestate` only tells the assignment's time window).
pub open spec fn spec_ketangpai_is_submitted(item: JsonValue) -> bool {
    match spec_json_int(spec_get(item, "mstatus"@)) {
        Some(m) => m != 0,
        None => false,
    }
}

/// Whether the student has submitted the entry.
pub fn ketangpai_is_submitted(item: &JsonValue) -> (r: bool)
    ensures
        r == spec_ketangpai_is_submitted(*item),
{
    match json_int(item.get("mstatus")) {
        Some(m) => m != 0,
        None => false,
    }
}

/// The entry's `endtime` as an integer: a JSON integer or a numeric string.
pub open spec fn spec_endtime(item: JsonValue) -> Option<int> {
    match spec_get(item, "endtime"@) {
        Some(v) => match spec_as_i64(v) {
            Some(n) => Some(n),
            None => match spec_as_str(v) {
                Some(s) => spec_parse_i64(s),
                None => None,
            },
        },
        None => None,
    }
}

/// An `endtime` in seconds: values above 10^12 are milliseconds.
pub open spec fn endtime_seconds(ts: int) -> int {
    if ts > 1_000_000_000_000 {
        ts / 1000
    } else {
        ts
    }
}

/// What an entry's deadline can be, whatever the machine's time zone: none
/// without a readable `endtime` or where chrono cannot hold it; one where
/// chrono holds the times a day either side of it; and any deadline a whole
/// second less than a day from it.
pub open spec fn deadline_fits(item: JsonValue, deadline: Option<i128>) -> bool {
    match spec_endtime(item) {
        None => deadline is None,
        Some(ts) => {
            let secs = endtime_seconds(ts);
            &&& !chrono_representable(secs) ==> deadline is None
            &&& local_shift_holds(secs) ==> deadline is Some
            &&& deadline matches Some(d) ==> near_endtime(secs, d as int)
        },
    }
}

/// A deadline in some time zone for the time `secs`: a whole second, less
/// than a day from it.
pub open spec fn near_endtime(secs: int, d: int) -> bool {
    exists|v: int| secs - 86400 < v < secs + 86400 && d == join_time(v, 0)
}

/// The entry's deadline: its `endtime` as a Unix time, taken as the wall-clock
/// time of the machine's time zone, so within a day of the `endtime`. `None`
/// without a readable `endtime`, and where chrono cannot hold the time or the
/// time shifted to the local zone (where chrono's `naive_local` would stop).
pub fn parse_endtime(item: &JsonValue) -> (r: Option<i128>)
    ensures
        deadline_fits(*item, r),
{
    let v = match item.get("endtime") {
        Some(v) => v,
        None => return None,
    };
    let ts = match v.as_i64() {
        Some(n) => n,
        None => match v.as_str() {
            Some(s) => match parse_i64(s) {
                Some(n) => n,
                None => return None,
            },
            None => return None,
        },
    };
    let secs = if ts > 1_000_000_000_000 { ts / 1000 } else { ts };
    assert(secs as int == endtime_seconds(ts as int));
    match timestamp_to_local_naive(secs) {
        Some(local) => {
            let d = join_nanos(local, 0);
            assert(near_endtime(secs as int, d as int));
            Some(d)
        },
        None => None,
    }
}

/// The page of a homework entry.
pub open spec fn homework_url(id: Seq<char>, course_id: Seq<char>) -> Seq<char> {
    "https://w.ketangpai.com/homework?id="@ + id + "&courseId="@ + course_id + "&courseRole=0"@
}

/// The item for an entry with the given deadline.
pub open spec fn entry_view(
    course_id: Seq<char>,
    course_name: Seq<char>,
    item: JsonValue,
    deadline: Option<i128>,
) -> HomeworkView {
    HomeworkView {
        title: match spec_str_at(Some(item), "title"@) {
            Some(t) => t,
            None => "未知作业"@,
        },
        course: course_name,
        deadline: deadline,
        platform: ketangpai_platform(),
        submitted: spec_ketangpai_is_submitted(item),
        url: homework_url(
            match spec_str_at(Some(item), "id"@) {
                Some(t) => t,
                None => Seq::empty(),
            },
            course_id,
        ),
    }
}

/// An entry is listed unless it is submitted and its deadline has passed.
pub open spec fn entry_kept(item: JsonValue, deadline: Option<i128>, now: int) -> bool {
    !(spec_ketangpai_is_submitted(item) && match deadline {
        Some(d) => d < now,
        None => false,
    })
}

/// The listed items of a course's entries, given each entry's deadline.
pub open spec fn entries_items(
    course_id: Seq<char>,
    course_name: Seq<char>,
    list: Seq<JsonValue>,
    deadlines: Seq<Option<i128>>,
    now: int,
) -> Seq<HomeworkView>
    decreases list.len(),
{
    if list.len() == 0 {
        Seq::empty()
    } else {
        let rest = entries_items(
            course_id,
            course_name,
            list.drop_last(),
            deadlines.take(list.len() - 1),
            now,
        );
        if entry_kept(list.last(), deadlines[list.len() - 1], now) {
            rest.push(entry_view(course_id, course_name, list.last(), deadlines[list.len() - 1]))
        } else {
            rest
        }
    }
}

/// The entries of a course-content response (empty when the call failed).
pub open spec fn content_list(data: JsonValue) -> Seq<JsonValue> {
    if !response_ok(data) {
        Seq::empty()
    } else {
        match spec_get_opt(spec_get(data, "data"@), "list"@) {
            Some(l) => match spec_as_array(l) {
                Some(a) => a,
                None => Seq::empty(),
            },
            None => Seq::empty(),
        }
    }
}

fn content_list_of(data: &JsonValue) -> (r: &[JsonValue])
    ensures
        r@ == content_list(*data),
{
    if !is_response_ok(data) {
        return &[];
    }
    match get_opt(data.get("data"), "list") {
        Some(l) => match l.as_array() {
            Some(a) => a.as_slice(),
            None => &[],
        },
        None => &[],
    }
}

/// Each deadline is one that its entry can have (`deadline_fits`).
pub open spec fn deadlines_fit(list: Seq<JsonValue>, deadlines: Seq<Option<i128>>) -> bool {
    &&& deadlines.len() == list.len()
    &&& forall|i: int| 0 <= i < list.len() ==> deadline_fits(#[trigger] list[i], deadlines[i])
}

/// The homework items of one course from its course-content response, at
/// wall-clock time `now`; none for a course without an id. The deadlines come
/// from the machine's time zone, so the contract speaks of them only as far as
/// the entries fix them.
pub fn course_homework(course: &JsonValue, data: &JsonValue, now: i128) -> (r: Vec<HomeworkItem>)
    ensures
        spec_course_id(*course) is None ==> r@.len() == 0,
        spec_course_id(*course) matches Some(cid) ==> exists|deadlines: Seq<Option<i128>>|
            deadlines_fit(content_list(*data), deadlines) && items_view(r@) == entries_items(
                cid,
                spec_course_name(*course),
                content_list(*data),
                deadlines,
                now as int,
            ),
{
    let cid = match course_id(course) {
        Some(c) => c,
        None => return Vec::new(),
    };
    let name = course_name(course);
    let list = content_list_of(data);
    let mut r: Vec<HomeworkItem> = Vec::new();
    let ghost mut ds: Seq<Option<i128>> = Seq::empty();
    let mut k: usize = 0;
    while k < list.len()
        invariant
            k <= list@.len(),
            ds.len() == k,
            spec_course_id(*course) == Some(cid@),
            name@ == spec_course_name(*course),
            list@ == content_list(*data),
            forall|i: int| 0 <= i < k ==> deadline_fits(#[trigger] list@[i], ds[i]),
            items_view(r@) == entries_items(cid@, name@, list@.take(k as int), ds, now as int),
        decreases list@.len() - k,
    {
        let item = &list[k];
        let deadline = parse_endtime(item);
        let submitted = ketangpai_is_submitted(item);
        let ghost prev = ds;
        proof {
            ds = ds.push(deadline);
        }
        assert(list@.take(k + 1).drop_last() =~= list@.take(k as int));
        assert(ds.take(k as int) =~= prev);
        let passed = match deadline {
            Some(d) => d < now,
            None => false,
        };
        if !(submitted && passed) {
            let id = match str_at(Some(item), "id") {
                Some(t) => t,
                None => "",
            };
            proof {
                reveal_strlit("");
            }
            let title = match str_at(Some(item), "title") {
                Some(t) => String::from_str(t),
                None => String::from_str("未知作业"),
            };
            let mut url = String::from_str("https://w.ketangpai.com/homework?id=");
            url.append(id);
            url.append("&courseId=");
            url.append(cid);
            url.append("&courseRole=0");
            let h = HomeworkItem {
                title,
                course: name.clone(),
                deadline,
                platform: String::from_str("课堂派"),
                submitted,
                url,
            };
            assert(h@.url =~= entry_view(cid@, name@, *item, deadline).url);
            assert(h@ == entry_view(cid@, name@, *item, deadline));
            r.push(h);
            assert(items_view(r@) =~= items_view(r@.drop_last()).push(h@));
            assert(r@.drop_last() =~= r@.take(r@.len() - 1));
        }
        k += 1;
    }
    assert(list@.take(list@.len() as int) =~= list@);
    assert(deadlines_fit(content_list(*data), ds));
    r
}

/// No listed entry is both submitted and past its deadline.
pub proof fn lemma_listed_entries_not_done_and_past(
    course_id: Seq<char>,
    course_name: Seq<char>,
    list: Seq<JsonValue>,
    deadlines: Seq<Option<i128>>,
    now: int,
)
    ensures
        forall|i: int|
            0 <= i < entries_items(course_id, course_name, list, deadlines, now).len() ==> {
                let h = #[trigger] entries_items(course_id, course_name, list, deadlines, now)[i];
                !(h.submitted && match h.deadline {
                    Some(d) => d < now,
                    None => false,
                })
            },
    decreases list.len(),
{
    if list.len() > 0 {
        lemma_listed_entries_not_done_and_past(course_id, course_name, list.drop_last(), deadlines.take(list.len() - 1), now);
    }
}

/// Every entry that is not both submitted and past its deadline is listed:
/// an entry still to be done, or submitted with its deadline missing or not
/// yet reached, gives its item.
pub proof fn lemma_entry_listed_unless_done_and_past(
    course_id: Seq<char>,
    course_name: Seq<char>,
    list: Seq<JsonValue>,
    deadlines: Seq<Option<i128>>,
    now: int,
    i: int,
)
    requires
        deadlines.len() == list.len(),
        0 <= i < list.len(),
        !(spec_ketangpai_is_submitted(list[i]) && (deadlines[i] matches Some(d) && d < now)),
    ensures
        entries_items(course_id, course_name, list, deadlines, now).contains(
            entry_view(course_id, course_name, list[i], deadlines[i]),
        ),
    decreases list.len(),
{
    let n = list.len();
    let rest = entries_items(course_id, course_name, list.drop_last(), deadlines.take(n - 1), now);
    let all = entries_items(course_id, course_name, list, deadlines, now);
    let v = entry_view(course_id, course_name, list[i], deadlines[i]);
    if i == n - 1 {
        assert(entry_kept(list.last(), deadlines[n - 1], now));
        assert(all == rest.push(v));
        assert(all[rest.len() as int] == v);
    } else {
        assert(list.drop_last()[i] == list[i]);
        assert(deadlines.take(n - 1)[i] == deadlines[i]);
        lemma_entry_listed_unless_done_and_past(course_id, course_name, list.drop_last(), deadlines.take(n - 1), now, i);
        let j = choose|j: int| 0 <= j < rest.len() && rest[j] == v;
        if entry_kept(list.last(), deadlines[n - 1], now) {
            assert(all == rest.push(entry_view(course_id, course_name, list.last(), deadlines[n - 1])));
            assert(all[j] == v);
        } else {
            assert(all == rest);
        }
    }
}

} // verus!
