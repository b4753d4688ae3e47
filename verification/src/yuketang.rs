//! Yuketang (changjiang deployment): session state, request headers, the
//! scan-login exchange, and the course and homework lists.

use vstd::prelude::*;
use vstd::string::*;
use crate::json::{
    get_opt, id_text, json_int, json_timestamp_positive, opt_val, spec_as_array,
    spec_as_bool, spec_as_i64, spec_as_str, spec_get, spec_get_opt, spec_id_text, spec_json_int,
    spec_json_timestamp_positive, spec_str_at, spec_value_to_id_string, str_at, str_eq,
    serde_json_compact, to_json_string, value_to_id_string, JsonValue,
};
use crate::models::{items_view, HomeworkItem, HomeworkView};
use crate::text::{
    before_first, eq_ignore_ascii_case, parse_i64, spec_parse_i64, spec_split_once,
    split_first_part, split_once_char, str_eq_ignore_ascii_case, trim, trim_ws,
};
use crate::time::{
    add_secs, chrono_representable, join_nanos, join_time, secs_between, spec_add_secs,
    timestamp_to_utc_naive, NANOS_PER_SEC,
};

verus! {

/// The platform's name on its items.
pub open spec fn yuketang_platform() -> Seq<char> {
    "长江雨课堂"@
}

/// The message of the error that a lapsed session gives.
pub open spec fn session_expired_message() -> Seq<char> {
    "凭证已过期，请重新扫码登录"@
}

/// The activity's submission is final: an `is_submitted` flag, or a positive
/// submit or commit time on the activity or on its `user`.
pub open spec fn spec_yuketang_has_final_submit(act: JsonValue) -> bool {
    ||| spec_as_bool_opt(spec_get(act, "is_submitted"@)) == Some(true)
    ||| spec_json_timestamp_positive(spec_get(act, "submit_time"@))
    ||| spec_json_timestamp_positive(spec_get(act, "submitTime"@))
    ||| spec_json_timestamp_positive(spec_get(act, "commit_time"@))
    ||| spec_json_timestamp_positive(spec_get(act, "commitTime"@))
    ||| (spec_get(act, "user"@) is Some && (spec_json_timestamp_positive(
        spec_get_opt(spec_get(act, "user"@), "submit_time"@),
    ) || spec_json_timestamp_positive(spec_get_opt(spec_get(act, "user"@), "submitTime"@))))
}

pub open spec fn spec_as_bool_opt(v: Option<JsonValue>) -> Option<bool> {
    match v {
        Some(x) => spec_as_bool(x),
        None => None,
    }
}

/// Whether the activity's submission is final.
pub fn yuketang_has_final_submit(act: &JsonValue) -> (r: bool)
    ensures
        r == spec_yuketang_has_final_submit(*act),
{
    let flag = match act.get("is_submitted") {
        Some(v) => v.as_bool(),
        None => None,
    };
    if flag == Some(true) {
        return true;
    }
    if json_timestamp_positive(act.get("submit_time")) {
        return true;
    }
    if json_timestamp_positive(act.get("submitTime")) {
        return true;
    }
    if json_timestamp_positive(act.get("commit_time")) {
        return true;
    }
    if json_timestamp_positive(act.get("commitTime")) {
        return true;
    }
    match act.get("user") {
        Some(user) => {
            if json_timestamp_positive(user.get("submit_time")) || json_timestamp_positive(
                user.get("submitTime"),
            ) {
                return true;
            }
        },
        None => {},
    }
    false
}

/// A homework activity counts as submitted when its `status` is 2 or 3
/// (graded), or 5 (committed) with a final submission; 0 and 1 (not
/// submitted), 6 (absent) and anything else do not count.
pub open spec fn spec_yuketang_is_submitted(act: JsonValue) -> bool {
    match spec_json_int(spec_get(act, "status"@)) {
        Some(s) => if s == 2 || s == 3 {
            true
        } else if s == 5 {
            spec_yuketang_has_final_submit(act)
        } else {
            false
        },
        None => false,
    }
}

/// Whether the student has submitted the activity.
pub fn yuketang_is_submitted(act: &JsonValue) -> (r: bool)
    ensures
        r == spec_yuketang_is_submitted(*act),
{
    match json_int(act.get("status")) {
        Some(s) => if s == 2 || s == 3 {
            true
        } else if s == 5 {
            yuketang_has_final_submit(act)
        } else {
            false
        },
        None => false,
    }
}

/// Session state: the two session cookies, the tenant's university id, and
/// whether the session is usable.
pub struct YuketangClient {
    csrftoken: String,
    sessionid: String,
    university_id: String,
    logged_in: bool,
}

/// What a Yuketang client holds.
pub struct YuketangState {
    pub csrftoken: Seq<char>,
    pub sessionid: Seq<char>,
    pub university_id: Seq<char>,
    pub logged_in: bool,
}

impl View for YuketangClient {
    type V = YuketangState;

    closed spec fn view(&self) -> YuketangState {
        YuketangState {
            csrftoken: self.csrftoken@,
            sessionid: self.sessionid@,
            university_id: self.university_id@,
            logged_in: self.logged_in,
        }
    }
}

/// A cookie's name and value from a `Set-Cookie` header: the first
/// `;`-separated part, split at its first `=`, both sides trimmed.
pub open spec fn set_cookie_pair(header: Seq<char>) -> Option<(Seq<char>, Seq<char>)> {
    match spec_split_once(before_first(header, ';'), '=') {
        Some((n, v)) => Some((trim_ws(n), trim_ws(v))),
        None => None,
    }
}

/// The state after a cookie: the session cookies and the university id are
/// taken, other cookies change nothing.
pub open spec fn with_cookie(st: YuketangState, name: Seq<char>, value: Seq<char>) -> YuketangState {
    if name == "csrftoken"@ {
        YuketangState { csrftoken: value, ..st }
    } else if name == "sessionid"@ {
        YuketangState { sessionid: value, ..st }
    } else if name == "university_id"@ {
        YuketangState { university_id: value, ..st }
    } else {
        st
    }
}

/// The cookie text of an API request.
pub open spec fn cookie_text(st: YuketangState, classroom_id: Seq<char>) -> Seq<char> {
    if classroom_id.len() == 0 {
        "csrftoken="@ + st.csrftoken + "; sessionid="@ + st.sessionid + "; university_id="@
            + st.university_id + "; platform_id=3"@
    } else {
        "csrftoken="@ + st.csrftoken + "; sessionid="@ + st.sessionid + "; classroom_id="@
            + classroom_id + "; classroomId="@ + classroom_id + "; university_id="@
            + st.university_id + "; platform_id=3"@
    }
}

/// The headers of an API request, in order.
pub open spec fn api_header_list(st: YuketangState, classroom_id: Seq<char>) -> Seq<(Seq<char>, Seq<char>)> {
    let base = seq![
        ("X-Csrftoken"@, st.csrftoken),
        ("xtbz"@, "ykt"@),
        ("xt-agent"@, "web"@),
        ("Referer"@, "https://changjiang.yuketang.cn/"@),
        ("Cookie"@, cookie_text(st, classroom_id)),
    ];
    if classroom_id.len() == 0 {
        base
    } else {
        base.push(("classroom-id"@, classroom_id))
    }
}

pub open spec fn header_views(h: Seq<(&'static str, String)>) -> Seq<(Seq<char>, Seq<char>)> {
    h.map_values(|p: (&'static str, String)| (p.0@, p.1@))
}

/// The session after taking the cookies of `Set-Cookie` headers in order.
pub open spec fn set_cookies_applied(st: YuketangState, headers: Seq<Seq<char>>) -> YuketangState
    decreases headers.len(),
{
    if headers.len() == 0 {
        st
    } else {
        let before = set_cookies_applied(st, headers.drop_last());
        match set_cookie_pair(headers.last()) {
            Some((n, v)) => with_cookie(before, n, v),
            None => before,
        }
    }
}

impl YuketangClient {
    /// A client for a stored session; usable when both cookies are present.
    pub fn new(csrftoken: &str, sessionid: &str, university_id: &str) -> (r: Self)
        ensures
            r@.csrftoken == csrftoken@,
            r@.sessionid == sessionid@,
            r@.university_id == university_id@,
            r@.logged_in == (csrftoken@.len() > 0 && sessionid@.len() > 0),
    {
        let logged_in = !csrftoken.is_empty() && !sessionid.is_empty();
        YuketangClient {
            csrftoken: String::from_str(csrftoken),
            sessionid: String::from_str(sessionid),
            university_id: String::from_str(university_id),
            logged_in,
        }
    }

    pub fn csrftoken(&self) -> (r: &str)
        ensures
            r@ == self@.csrftoken,
    {
        self.csrftoken.as_str()
    }

    pub fn sessionid(&self) -> (r: &str)
        ensures
            r@ == self@.sessionid,
    {
        self.sessionid.as_str()
    }

    pub fn university_id(&self) -> (r: &str)
        ensures
            r@ == self@.university_id,
    {
        self.university_id.as_str()
    }

    pub fn is_logged_in(&self) -> (r: bool)
        ensures
            r == self@.logged_in,
    {
        self.logged_in
    }

    /// The headers of an API request; a non-empty classroom id scopes it to
    /// that classroom.
    pub fn api_headers(&self, classroom_id: &str) -> (r: Vec<(&'static str, String)>)
        ensures
            header_views(r@) == api_header_list(self@, classroom_id@),
    {
        let mut cookie = String::from_str("csrftoken=");
        cookie.append(self.csrftoken.as_str());
        cookie.append("; sessionid=");
        cookie.append(self.sessionid.as_str());
        if !classroom_id.is_empty() {
            cookie.append("; classroom_id=");
            cookie.append(classroom_id);
            cookie.append("; classroomId=");
            cookie.append(classroom_id);
        }
        cookie.append("; university_id=");
        cookie.append(self.university_id.as_str());
        cookie.append("; platform_id=3");
        assert(cookie@ =~= cookie_text(self@, classroom_id@));
        let mut headers: Vec<(&'static str, String)> = Vec::new();
        headers.push(("X-Csrftoken", self.csrftoken.clone()));
        headers.push(("xtbz", String::from_str("ykt")));
        headers.push(("xt-agent", String::from_str("web")));
        headers.push(("Referer", String::from_str("https://changjiang.yuketang.cn/")));
        headers.push(("Cookie", cookie));
        if !classroom_id.is_empty() {
            headers.push(("classroom-id", String::from_str(classroom_id)));
        }
        assert(header_views(headers@) =~= api_header_list(self@, classroom_id@));
        headers
    }

    /// Takes one cookie of the session (as read from the cookie store).
    pub fn apply_cookie(&mut self, name: &str, value: &str)
        ensures
            final(self)@ == with_cookie(old(self)@, name@, value@),
    {
        if str_eq(name, "csrftoken") {
            self.csrftoken = String::from_str(value);
        } else if str_eq(name, "sessionid") {
            self.sessionid = String::from_str(value);
        } else if str_eq(name, "university_id") {
            self.university_id = String::from_str(value);
        }
    }

    /// Takes the cookie of one `Set-Cookie` header, whatever its attributes.
    pub fn apply_set_cookie(&mut self, header: &str)
        ensures
            final(self)@ == match set_cookie_pair(header@) {
                Some((n, v)) => with_cookie(old(self)@, n, v),
                None => old(self)@,
            },
    {
        let pair = split_first_part(header, ';');
        match split_once_char(pair.as_str(), '=') {
            Some((name, val)) => {
                let n = trim(name.as_str());
                let v = trim(val.as_str());
                self.apply_cookie(n.as_str(), v.as_str());
            },
            None => {},
        }
    }

    /// Takes the cookies of `Set-Cookie` headers, in order.
    pub fn apply_set_cookies(&mut self, headers: &[String])
        ensures
            final(self)@ == set_cookies_applied(old(self)@, headers@.map_values(|h: String| h@)),
    {
        let ghost hs = headers@.map_values(|h: String| h@);
        let ghost start = self@;
        let mut i: usize = 0;
        while i < headers.len()
            invariant
                i <= headers@.len(),
                hs == headers@.map_values(|h: String| h@),
                self@ == set_cookies_applied(start, hs.take(i as int)),
            decreases headers@.len() - i,
        {
            self.apply_set_cookie(headers[i].as_str());
            proof {
                assert(hs.take(i + 1).drop_last() =~= hs.take(i as int));
                assert(hs.take(i + 1).last() == headers@[i as int]@);
            }
            i += 1;
        }
        assert(hs.take(headers@.len() as int) =~= hs);
    }

    /// Sets the tenant's university id.
    pub fn set_university_id(&mut self, university_id: String)
        ensures
            final(self)@ == (YuketangState { university_id: university_id@, ..old(self)@ }),
    {
        self.university_id = university_id;
    }

    /// Ends a scan login: the session is usable once both cookies are
    /// present; returns whether it is.
    pub fn complete_login(&mut self) -> (r: bool)
        ensures
            r == (old(self)@.csrftoken.len() > 0 && old(self)@.sessionid.len() > 0),
            final(self)@ == (YuketangState { logged_in: old(self)@.logged_in || r, ..old(self)@ }),
    {
        if self.csrftoken.as_str().is_empty() || self.sessionid.as_str().is_empty() {
            false
        } else {
            self.logged_in = true;
            true
        }
    }

    /// Both session cookies are present.
    pub fn has_credentials(&self) -> (r: bool)
        ensures
            r == (self@.csrftoken.len() > 0 && self@.sessionid.len() > 0),
    {
        !self.csrftoken.as_str().is_empty() && !self.sessionid.as_str().is_empty()
    }
}

/// The tenant's university id in a portal-info response: the JSON text of
/// `data.university_id` without quotes, unless empty or `null`.
pub open spec fn spec_university_id_from_response(data: JsonValue) -> Option<Seq<char>> {
    match spec_get_opt(spec_get(data, "data"@), "university_id"@) {
        Some(v) => {
            let t = spec_id_text(v);
            if t.len() > 0 && t != "null"@ {
                Some(t)
            } else {
                None
            }
        },
        None => None,
    }
}

/// The tenant's university id in a portal-info response.
pub fn university_id_from_response(data: &JsonValue) -> (r: Option<String>)
    ensures
        r matches Some(s) ==> spec_university_id_from_response(*data) == Some(s@),
        r is None ==> spec_university_id_from_response(*data) is None,
{
    match get_opt(data.get("data"), "university_id") {
        Some(v) => {
            let t = id_text(v);
            if !t.as_str().is_empty() && !str_eq(t.as_str(), "null") {
                Some(t)
            } else {
                None
            }
        },
        None => None,
    }
}

/// The university id after a scan login: the fetched one when it reads as a
/// positive integer, else the current one.
pub open spec fn spec_choose_university_id(fetched: Option<Seq<char>>, current: Seq<char>) -> Seq<char> {
    match fetched {
        Some(f) => match spec_parse_i64(f) {
            Some(n) => if n > 0 { f } else { current },
            None => current,
        },
        None => current,
    }
}

/// The university id after a scan login.
pub fn choose_university_id(fetched: Option<String>, current: &str) -> (r: String)
    ensures
        r@ == spec_choose_university_id(
            match fetched {
                Some(f) => Some(f@),
                None => None,
            },
            current@,
        ),
{
    match fetched {
        Some(f) => match parse_i64(f.as_str()) {
            Some(n) => if n > 0 {
                f
            } else {
                String::from_str(current)
            },
            None => String::from_str(current),
        },
        None => String::from_str(current),
    }
}

/// `v` is the JSON string `s`, or `null` where there is none.
pub open spec fn is_string_or_null(v: JsonValue, s: Option<Seq<char>>) -> bool {
    match s {
        Some(x) => v matches JsonValue::String(t) && t@ == x,
        None => v is Null,
    }
}

/// `v` is the body of the `/pc/web_login` request that exchanges the scan's
/// user id and auth for a session: `UserID`, `Auth`, the host name and
/// `no_loading: true`.
pub open spec fn is_web_login_value(v: JsonValue, user_id: Option<Seq<char>>, auth: Option<Seq<char>>) -> bool {
    &&& v matches JsonValue::Object(es)
    &&& es@.len() == 4
    &&& es@[0].0@ == "UserID"@ && is_string_or_null(es@[0].1, user_id)
    &&& es@[1].0@ == "Auth"@ && is_string_or_null(es@[1].1, auth)
    &&& es@[2].0@ == "host_name"@ && (es@[2].1 matches JsonValue::String(h) && h@ == "changjiang.yuketang.cn"@)
    &&& es@[3].0@ == "no_loading"@ && es@[3].1 == JsonValue::Bool(true)
}

pub open spec fn opt_str_view(s: Option<String>) -> Option<Seq<char>> {
    match s {
        Some(x) => Some(x@),
        None => None,
    }
}

fn string_or_null(s: &Option<String>) -> (r: JsonValue)
    ensures
        is_string_or_null(r, opt_str_view(*s)),
{
    match s {
        Some(x) => JsonValue::String(x.clone()),
        None => JsonValue::Null,
    }
}

/// The body of the `/pc/web_login` request: the compact JSON text that
/// serde_json prints for it.
pub fn web_login_body(user_id: &Option<String>, auth: &Option<String>) -> (r: String)
    ensures
        exists|v: JsonValue|
            is_web_login_value(v, opt_str_view(*user_id), opt_str_view(*auth)) && r@ == serde_json_compact(v),
{
    let v = JsonValue::Object(
        vec![
            (String::from_str("UserID"), string_or_null(user_id)),
            (String::from_str("Auth"), string_or_null(auth)),
            (String::from_str("host_name"), JsonValue::String(String::from_str("changjiang.yuketang.cn"))),
            (String::from_str("no_loading"), JsonValue::Bool(true)),
        ],
    );
    let r = to_json_string(&v);
    assert(is_web_login_value(v, opt_str_view(*user_id), opt_str_view(*auth)));
    r
}

/// What a successful scan reports.
pub struct QrLoginResult {
    pub success: bool,
    pub user_id: Option<String>,
    pub auth: Option<String>,
}

/// The QR code link in a login-socket message.
pub fn qr_code_of(data: &JsonValue) -> (r: Option<&str>)
    ensures
        r matches Some(s) ==> spec_str_at(Some(*data), "qrcode"@) == Some(s@),
        r is None ==> spec_str_at(Some(*data), "qrcode"@) is None,
{
    str_at(Some(data), "qrcode")
}

/// A login-socket message reports a scan when its `subscribe_status` is true.
pub open spec fn scan_done(data: JsonValue) -> bool {
    spec_as_bool_opt(spec_get(data, "subscribe_status"@)) == Some(true)
}

/// The outcome that a login-socket message reports, if it reports a scan:
/// the user id (a string or a number) and the auth string.
pub fn qr_login_result(data: &JsonValue) -> (r: Option<QrLoginResult>)
    ensures
        r is Some == scan_done(*data),
        r matches Some(q) ==> q.success && match q.user_id {
            Some(u) => match spec_get(*data, "UserID"@) {
                Some(v) => spec_value_to_id_string(v) == Some(u@),
                None => false,
            },
            None => match spec_get(*data, "UserID"@) {
                Some(v) => spec_value_to_id_string(v) is None,
                None => true,
            },
        } && match q.auth {
            Some(a) => spec_str_at(Some(*data), "Auth"@) == Some(a@),
            None => spec_str_at(Some(*data), "Auth"@) is None,
        },
{
    let status = match data.get("subscribe_status") {
        Some(v) => v.as_bool(),
        None => None,
    };
    if status != Some(true) {
        return None;
    }
    let user_id = match data.get("UserID") {
        Some(v) => value_to_id_string(v),
        None => None,
    };
    let auth = match str_at(Some(data), "Auth") {
        Some(a) => Some(String::from_str(a)),
        None => None,
    };
    Some(QrLoginResult { success: true, user_id, auth })
}

/// A response means that the session has lapsed: status 401 or 403, a
/// non-zero `errcode`, or an `errmsg` other than `success` (in any case).
pub open spec fn spec_is_session_expired(status: u16, data: JsonValue) -> bool {
    if status == 401 || status == 403 {
        true
    } else if match spec_json_int(spec_get(data, "errcode"@)) {
        Some(c) => c != 0,
        None => false,
    } {
        true
    } else {
        match spec_str_at(Some(data), "errmsg"@) {
            Some(m) => !eq_ignore_ascii_case(m, "success"@),
            None => false,
        }
    }
}

/// Whether a response means that the session has lapsed.
pub fn is_session_expired(status: u16, data: &JsonValue) -> (r: bool)
    ensures
        r == spec_is_session_expired(status, *data),
{
    if status == 401 || status == 403 {
        return true;
    }
    match json_int(data.get("errcode")) {
        Some(c) => if c != 0 {
            return true;
        },
        None => {},
    }
    match str_at(Some(data), "errmsg") {
        Some(m) => !str_eq_ignore_ascii_case(m, "success"),
        None => false,
    }
}

/// A timestamp field as an integer: a JSON integer or a numeric string.
pub open spec fn spec_raw_timestamp(v: Option<JsonValue>) -> Option<int> {
    match v {
        Some(x) => match spec_as_i64(x) {
            Some(n) => Some(n),
            None => match spec_as_str(x) {
                Some(s) => spec_parse_i64(s),
                None => None,
            },
        },
        None => None,
    }
}

/// A timestamp field as a UTC wall-clock time: values above 10^12 are
/// milliseconds.
pub open spec fn spec_parse_timestamp(v: Option<JsonValue>) -> Option<int> {
    match spec_raw_timestamp(v) {
        Some(raw) => {
            let secs = if raw > 1_000_000_000_000 { raw / 1000 } else { raw };
            if chrono_representable(secs) { Some(secs) } else { None }
        },
        None => None,
    }
}

pub open spec fn opt_i64_view(v: Option<i64>) -> Option<int> {
    match v {
        Some(x) => Some(x as int),
        None => None,
    }
}

/// A timestamp field as a UTC wall-clock time.
pub fn parse_timestamp(ts: Option<&JsonValue>) -> (r: Option<i64>)
    ensures
        opt_i64_view(r) == spec_parse_timestamp(opt_val(ts)),
{
    let v = match ts {
        Some(v) => v,
        None => return None,
    };
    let raw = match v.as_i64() {
        Some(n) => n,
        None => match v.as_str() {
            Some(s) => match parse_i64(s) {
                Some(n) => n,
                None => return None,
            },
            None => return None,
        },
    };
    let secs = if raw > 1_000_000_000_000 { raw / 1000 } else { raw };
    timestamp_to_utc_naive(secs)
}

/// A course whose homework is listed.
pub struct YktCourse {
    pub course_name: String,
    pub classroom_id: String,
}

/// Whole days from `b` to `a` (times in nanoseconds), rounded toward zero as
/// chrono's `num_days` counts them from the whole seconds.
pub open spec fn whole_days(a: int, b: int) -> int {
    if a >= b {
        ((a - b) / (NANOS_PER_SEC as int)) / 86400
    } else {
        -(((b - a) / (NANOS_PER_SEC as int)) / 86400)
    }
}

/// The course that an entry of the course list gives at wall-clock time
/// `now`, as its name and classroom id: entries without course data or
/// classroom id, with an end time in the past, or that started more than 180
/// days ago are left out.
pub open spec fn course_entry(item: JsonValue, now: int) -> Option<(Seq<char>, Seq<char>)> {
    match spec_get(item, "course"@) {
        None => None,
        Some(info) => match spec_get(item, "classroom_id"@) {
            None => None,
            Some(cv) => {
                let cid = spec_id_text(cv);
                let end_field = match spec_get(item, "end_time"@) {
                    Some(e) => Some(e),
                    None => spec_get(info, "end_time"@),
                };
                let ended = match spec_parse_timestamp(end_field) {
                    Some(e) => end_field is Some && join_time(e, 0) < now,
                    None => false,
                };
                let stale = match spec_parse_timestamp(spec_get(item, "time"@)) {
                    Some(st) => whole_days(now, join_time(st, 0)) > 180,
                    None => false,
                };
                if cid.len() == 0 || ended || stale {
                    None
                } else {
                    Some(
                        (
                            match spec_str_at(Some(info), "name"@) {
                                Some(n) => n,
                                None => "未知课程"@,
                            },
                            cid,
                        ),
                    )
                }
            },
        },
    }
}

/// The courses of a course list, in order.
pub open spec fn course_entries(list: Seq<JsonValue>, now: int) -> Seq<(Seq<char>, Seq<char>)>
    decreases list.len(),
{
    if list.len() == 0 {
        Seq::empty()
    } else {
        match course_entry(list.last(), now) {
            Some(c) => course_entries(list.drop_last(), now).push(c),
            None => course_entries(list.drop_last(), now),
        }
    }
}

/// The entries of a course-list response.
pub open spec fn course_list(data: JsonValue) -> Seq<JsonValue> {
    match spec_get_opt(spec_get(data, "data"@), "list"@) {
        Some(l) => match spec_as_array(l) {
            Some(a) => a,
            None => Seq::empty(),
        },
        None => Seq::empty(),
    }
}

pub open spec fn course_views(cs: Seq<YktCourse>) -> Seq<(Seq<char>, Seq<char>)> {
    cs.map_values(|c: YktCourse| (c.course_name@, c.classroom_id@))
}

/// Why a list could not be had.
pub enum YuketangError {
    /// The session has lapsed; a new scan login is needed.
    SessionExpired,
}

fn list_at<'a>(data: &'a JsonValue, outer: &str, inner: &str) -> (r: &'a [JsonValue])
    ensures
        r@ == match spec_get_opt(spec_get(*data, outer@), inner@) {
            Some(l) => match spec_as_array(l) {
                Some(a) => a,
                None => Seq::empty(),
            },
            None => Seq::empty(),
        },
{
    match get_opt(data.get(outer), inner) {
        Some(l) => match l.as_array() {
            Some(a) => a.as_slice(),
            None => &[],
        },
        None => &[],
    }
}

fn course_of(item: &JsonValue, now: i128) -> (r: Option<YktCourse>)
    ensures
        match r {
            Some(c) => course_entry(*item, now as int) == Some((c.course_name@, c.classroom_id@)),
            None => course_entry(*item, now as int) is None,
        },
{
    let info = match item.get("course") {
        Some(i) => i,
        None => return None,
    };
    let cv = match item.get("classroom_id") {
        Some(c) => c,
        None => return None,
    };
    let cid = id_text(cv);
    if cid.as_str().is_empty() {
        return None;
    }
    let end_field = match item.get("end_time") {
        Some(e) => Some(e),
        None => info.get("end_time"),
    };
    match parse_timestamp(end_field) {
        Some(e) => if join_nanos(e, 0) < now {
            return None;
        },
        None => {},
    }
    match parse_timestamp(item.get("time")) {
        Some(st) => {
            let start = join_nanos(st, 0);
            let days: i128 = if now >= start {
                secs_between(now, start) / 86400
            } else {
                0 - secs_between(start, now) / 86400
            };
            if days > 180 {
                return None;
            }
        },
        None => {},
    }
    let name = match str_at(Some(info), "name") {
        Some(n) => String::from_str(n),
        None => String::from_str("未知课程"),
    };
    Some(YktCourse { course_name: name, classroom_id: cid })
}

/// The courses of a course-list response at wall-clock time `now`, or the
/// lapse of the session.
pub fn courses_from_response(status: u16, data: &JsonValue, now: i128) -> (r: Result<
    Vec<YktCourse>,
    YuketangError,
>)
    ensures
        r is Err <==> spec_is_session_expired(status, *data),
        r matches Ok(cs) ==> course_views(cs@) == course_entries(course_list(*data), now as int),
{
    if is_session_expired(status, data) {
        return Err(YuketangError::SessionExpired);
    }
    let list = list_at(data, "data", "list");
    let mut r: Vec<YktCourse> = Vec::new();
    let mut k: usize = 0;
    while k < list.len()
        invariant
            k <= list@.len(),
            list@ == course_list(*data),
            course_views(r@) == course_entries(list@.take(k as int), now as int),
        decreases list@.len() - k,
    {
        assert(list@.take(k + 1).drop_last() =~= list@.take(k as int));
        match course_of(&list[k], now) {
            Some(c) => {
                r.push(c);
                assert(course_views(r@) =~= course_views(r@.drop_last()).push(
                    (r@.last().course_name@, r@.last().classroom_id@),
                ));
            },
            None => {},
        }
        k += 1;
    }
    assert(list@.take(list@.len() as int) =~= list@);
    Ok(r)
}

/// The deadline that an activity names: `end_time`, else `close_time`, else
/// `deadline`.
pub open spec fn named_deadline(act: JsonValue) -> Option<int> {
    match spec_parse_timestamp(spec_get(act, "end_time"@)) {
        Some(d) => Some(d),
        None => match spec_parse_timestamp(spec_get(act, "close_time"@)) {
            Some(d) => Some(d),
            None => spec_parse_timestamp(spec_get(act, "deadline"@)),
        },
    }
}

/// The largest number of seconds a chrono duration holds.
pub open spec fn max_duration_secs() -> int {
    9223372036854775
}

/// The activity's deadline comes from its start and duration, and the
/// duration is more seconds than chrono can hold.
pub open spec fn duration_overflows(act: JsonValue) -> bool {
    &&& named_deadline(act) is None
    &&& spec_parse_timestamp(spec_get(act, "begin_time"@)) is Some
    &&& match spec_get(act, "duration"@) {
        Some(v) => match spec_as_i64(v) {
            Some(d) => d > max_duration_secs() || d < -max_duration_secs(),
            None => false,
        },
        None => false,
    }
}

/// The activity's deadline: the one it names, else its start plus its
/// duration in seconds.
pub open spec fn activity_deadline(act: JsonValue) -> Option<int> {
    match named_deadline(act) {
        Some(d) => Some(d),
        None => match spec_parse_timestamp(spec_get(act, "begin_time"@)) {
            Some(b) => match spec_get(act, "duration"@) {
                Some(v) => match spec_as_i64(v) {
                    Some(d) => spec_add_secs(b, d),
                    None => None,
                },
                None => None,
            },
            None => None,
        },
    }
}

/// The page of an activity.
pub open spec fn activity_url(classroom_id: Seq<char>, courseware_id: Seq<char>) -> Seq<char> {
    if courseware_id.len() == 0 {
        "https://changjiang.yuketang.cn/v2/web/studentLog/"@ + classroom_id
    } else {
        "https://changjiang.yuketang.cn/v2/web/trans/"@ + classroom_id + "/"@ + courseware_id
            + "?status=1"@
    }
}

/// The item of an activity.
pub open spec fn activity_view(course_name: Seq<char>, classroom_id: Seq<char>, act: JsonValue) -> HomeworkView {
    HomeworkView {
        title: match spec_str_at(Some(act), "title"@) {
            Some(t) => t,
            None => "未知作业"@,
        },
        course: course_name,
        deadline: match activity_deadline(act) {
            Some(d) => Some(join_time(d, 0) as i128),
            None => None,
        },
        platform: yuketang_platform(),
        submitted: spec_yuketang_is_submitted(act),
        url: activity_url(
            classroom_id,
            match spec_get(act, "courseware_id"@) {
                Some(v) => spec_id_text(v),
                None => Seq::empty(),
            },
        ),
    }
}

/// An activity is listed unless it is submitted and its deadline has passed.
pub open spec fn activity_kept(act: JsonValue, now: int) -> bool {
    !(spec_yuketang_is_submitted(act) && match activity_deadline(act) {
        Some(d) => join_time(d, 0) < now,
        None => false,
    })
}

/// The listed items of a course's activities.
pub open spec fn activity_items(
    course_name: Seq<char>,
    classroom_id: Seq<char>,
    acts: Seq<JsonValue>,
    now: int,
) -> Seq<HomeworkView>
    decreases acts.len(),
{
    if acts.len() == 0 {
        Seq::empty()
    } else {
        let rest = activity_items(course_name, classroom_id, acts.drop_last(), now);
        if activity_kept(acts.last(), now) {
            rest.push(activity_view(course_name, classroom_id, acts.last()))
        } else {
            rest
        }
    }
}

/// The activities of a learning-log response.
pub open spec fn activity_list(data: JsonValue) -> Seq<JsonValue> {
    match spec_get_opt(spec_get(data, "data"@), "activities"@) {
        Some(l) => match spec_as_array(l) {
            Some(a) => a,
            None => Seq::empty(),
        },
        None => Seq::empty(),
    }
}

fn deadline_of(act: &JsonValue) -> (r: Option<i64>)
    requires
        !duration_overflows(*act),
    ensures
        opt_i64_view(r) == activity_deadline(*act),
{
    let mut d = parse_timestamp(act.get("end_time"));
    if d.is_none() {
        d = parse_timestamp(act.get("close_time"));
    }
    if d.is_none() {
        d = parse_timestamp(act.get("deadline"));
    }
    if d.is_none() {
        match parse_timestamp(act.get("begin_time")) {
            Some(b) => match act.get("duration") {
                Some(v) => match v.as_i64() {
                    Some(dur) => {
                        d = match add_secs(b, 0, dur) {
                            Some(p) => Some(p.0),
                            None => None,
                        };
                    },
                    None => {},
                },
                None => {},
            },
            None => {},
        }
    }
    d
}

/// The homework items of a course from its learning-log response, at
/// wall-clock time `now`.
pub fn course_homework(course: &YktCourse, data: &JsonValue, now: i128) -> (r: Vec<HomeworkItem>)
    requires
        forall|i: int| 0 <= i < activity_list(*data).len() ==> !duration_overflows(#[trigger] activity_list(*data)[i]),
    ensures
        items_view(r@) == activity_items(
            course.course_name@,
            course.classroom_id@,
            activity_list(*data),
            now as int,
        ),
{
    let acts = list_at(data, "data", "activities");
    let mut r: Vec<HomeworkItem> = Vec::new();
    let mut k: usize = 0;
    while k < acts.len()
        invariant
            k <= acts@.len(),
            acts@ == activity_list(*data),
            forall|i: int| 0 <= i < acts@.len() ==> !duration_overflows(#[trigger] acts@[i]),
            items_view(r@) == activity_items(
                course.course_name@,
                course.classroom_id@,
                acts@.take(k as int),
                now as int,
            ),
        decreases acts@.len() - k,
    {
        assert(acts@.take(k + 1).drop_last() =~= acts@.take(k as int));
        let act = &acts[k];
        let submitted = yuketang_is_submitted(act);
        let deadline = match deadline_of(act) {
            Some(d) => Some(join_nanos(d, 0)),
            None => None,
        };
        let passed = match deadline {
            Some(d) => d < now,
            None => false,
        };
        if !(submitted && passed) {
            let title = match str_at(Some(act), "title") {
                Some(t) => String::from_str(t),
                None => String::from_str("未知作业"),
            };
            let cw = match act.get("courseware_id") {
                Some(v) => id_text(v),
                None => String::new(),
            };
            let url = if cw.as_str().is_empty() {
                let mut u = String::from_str("https://changjiang.yuketang.cn/v2/web/studentLog/");
                u.append(course.classroom_id.as_str());
                u
            } else {
                let mut u = String::from_str("https://changjiang.yuketang.cn/v2/web/trans/");
                u.append(course.classroom_id.as_str());
                u.append("/");
                u.append(cw.as_str());
                u.append("?status=1");
                u
            };
            let h = HomeworkItem {
                title,
                course: course.course_name.clone(),
                deadline,
                platform: String::from_str("长江雨课堂"),
                submitted,
                url,
            };
            assert(h@ == activity_view(course.course_name@, course.classroom_id@, *act));
            r.push(h);
            assert(items_view(r@) =~= items_view(r@.drop_last()).push(h@));
        }
        k += 1;
    }
    assert(acts@.take(acts@.len() as int) =~= acts@);
    r
}

/// Whether some activity of a learning-log response has a duration that
/// chrono cannot hold where it would be used.
pub fn has_duration_overflow(data: &JsonValue) -> (r: bool)
    ensures
        r == exists|i: int| 0 <= i < activity_list(*data).len() && duration_overflows(#[trigger] activity_list(*data)[i]),
{
    let acts = list_at(data, "data", "activities");
    let mut k: usize = 0;
    while k < acts.len()
        invariant
            k <= acts@.len(),
            acts@ == activity_list(*data),
            forall|i: int| 0 <= i < k ==> !duration_overflows(#[trigger] acts@[i]),
        decreases acts@.len() - k,
    {
        let act = &acts[k];
        let named = match parse_timestamp(act.get("end_time")) {
            Some(_) => true,
            None => match parse_timestamp(act.get("close_time")) {
                Some(_) => true,
                None => parse_timestamp(act.get("deadline")).is_some(),
            },
        };
        if !named && parse_timestamp(act.get("begin_time")).is_some() {
            match act.get("duration") {
                Some(v) => match v.as_i64() {
                    Some(d) => if d > 9223372036854775 || d < -9223372036854775 {
                        assert(duration_overflows(acts@[k as int]));
                        return true;
                    },
                    None => {},
                },
                None => {},
            }
        }
        k += 1;
    }
    false
}

/// The homework items of a course from its learning-log response, or `None`
/// where an activity's duration is more than chrono can hold (the point at
/// which the listing cannot go on).
pub fn course_homework_checked(course: &YktCourse, data: &JsonValue, now: i128) -> (r: Option<Vec<HomeworkItem>>)
    ensures
        r is None <==> exists|i: int| 0 <= i < activity_list(*data).len() && duration_overflows(#[trigger] activity_list(*data)[i]),
        r matches Some(items) ==> items_view(items@) == activity_items(
            course.course_name@,
            course.classroom_id@,
            activity_list(*data),
            now as int,
        ),
{
    if has_duration_overflow(data) {
        None
    } else {
        Some(course_homework(course, data, now))
    }
}

proof fn lemma_timestamp_in_range(v: Option<JsonValue>)
    ensures
        spec_parse_timestamp(v) matches Some(t) ==> i64::MIN <= t <= i64::MAX,
{
}

proof fn lemma_activity_deadline_in_range(act: JsonValue)
    ensures
        activity_deadline(act) matches Some(t) ==> i64::MIN <= t <= i64::MAX,
{
    lemma_timestamp_in_range(spec_get(act, "end_time"@));
    lemma_timestamp_in_range(spec_get(act, "close_time"@));
    lemma_timestamp_in_range(spec_get(act, "deadline"@));
}

/// No listed activity is both submitted and past its deadline.
pub proof fn lemma_listed_activities_not_done_and_past(
    course_name: Seq<char>,
    classroom_id: Seq<char>,
    acts: Seq<JsonValue>,
    now: int,
)
    ensures
        forall|i: int|
            0 <= i < activity_items(course_name, classroom_id, acts, now).len() ==> {
                let h = #[trigger] activity_items(course_name, classroom_id, acts, now)[i];
                !(h.submitted && match h.deadline {
                    Some(d) => d < now,
                    None => false,
                })
            },
    decreases acts.len(),
{
    if acts.len() > 0 {
        lemma_listed_activities_not_done_and_past(course_name, classroom_id, acts.drop_last(), now);
        lemma_activity_deadline_in_range(acts.last());
    }
}

/// Every activity that is not both submitted and past its deadline is listed:
/// in particular an activity not yet submitted is always listed, whether or
/// not its deadline has passed.
pub proof fn lemma_activity_listed_unless_done_and_past(
    course_name: Seq<char>,
    classroom_id: Seq<char>,
    acts: Seq<JsonValue>,
    now: int,
    i: int,
)
    requires
        0 <= i < acts.len(),
        !(spec_yuketang_is_submitted(acts[i]) && (activity_deadline(acts[i]) matches Some(d) && d
            * NANOS_PER_SEC < now)),
    ensures
        activity_items(course_name, classroom_id, acts, now).contains(
            activity_view(course_name, classroom_id, acts[i]),
        ),
    decreases acts.len(),
{
    let n = acts.len();
    let rest = activity_items(course_name, classroom_id, acts.drop_last(), now);
    let all = activity_items(course_name, classroom_id, acts, now);
    let v = activity_view(course_name, classroom_id, acts[i]);
    if i == n - 1 {
        assert(activity_kept(acts.last(), now));
        assert(all == rest.push(v));
        assert(all[rest.len() as int] == v);
    } else {
        assert(acts.drop_last()[i] == acts[i]);
        lemma_activity_listed_unless_done_and_past(course_name, classroom_id, acts.drop_last(), now, i);
        let j = choose|j: int| 0 <= j < rest.len() && rest[j] == v;
        if activity_kept(acts.last(), now) {
            assert(all == rest.push(activity_view(course_name, classroom_id, acts.last())));
            assert(all[j] == v);
        } else {
            assert(all == rest);
        }
    }
}

} // verus!
