use homework_core::chaoxing::{
    build_exam_url, build_homework_url, courses_from_response as cx_courses, exam_items,
    extract_exams, extract_exams_table, extract_homework, fix_url, homework_items,
    left_time_too_long, login_ok, needed_course_ids, parse_left_time, query_params, work_enc,
    work_urls, ChaoxingClient,
};
use homework_core::json::{JsonNumber, JsonValue};
use homework_core::ketangpai::{
    course_homework as kt_course_homework, course_id, course_list_of, current_term, parse_endtime,
    term_course_positions, KetangpaiClient,
};
use homework_core::qr::render_qr_png;
use homework_core::time::{MAX_TIMESTAMP, MIN_TIMESTAMP};
use homework_core::yuketang::{
    choose_university_id, course_homework_checked, courses_from_response, is_session_expired,
    parse_timestamp, qr_code_of, qr_login_result, university_id_from_response, web_login_body,
    YktCourse, YuketangClient,
};

fn num(n: i64) -> JsonValue {
    if n >= 0 {
        JsonValue::Number(JsonNumber::PosInt(n as u64))
    } else {
        JsonValue::Number(JsonNumber::NegInt(n))
    }
}

fn text(s: &str) -> JsonValue {
    JsonValue::String(s.to_string())
}

fn obj(entries: Vec<(&str, JsonValue)>) -> JsonValue {
    JsonValue::Object(entries.into_iter().map(|(k, v)| (k.to_string(), v)).collect())
}

const NOW: i64 = 1_700_000_000;
const NS: i128 = 1_000_000_000;
/// `NOW` with a part of a second, in nanoseconds.
const T: i128 = NOW as i128 * NS + 400_000_000;

fn at(secs: i64) -> i128 {
    secs as i128 * NS
}

#[test]
fn yuketang_session_and_headers() {
    let c = YuketangClient::new("ct", "sid", "3078");
    assert!(c.is_logged_in());
    assert!(!YuketangClient::new("", "sid", "3078").is_logged_in());
    let h = c.api_headers("");
    assert_eq!(h.len(), 5);
    assert_eq!(h[4].1, "csrftoken=ct; sessionid=sid; university_id=3078; platform_id=3");
    let h2 = c.api_headers("77");
    assert_eq!(h2.len(), 6);
    assert_eq!(
        h2[4].1,
        "csrftoken=ct; sessionid=sid; classroom_id=77; classroomId=77; university_id=3078; platform_id=3"
    );
    assert_eq!(h2[5], ("classroom-id", "77".to_string()));
    assert_eq!(h2[0], ("X-Csrftoken", "ct".to_string()));
}

#[test]
fn yuketang_scan_login_steps() {
    let mut c = YuketangClient::new("", "", "3078");
    c.apply_set_cookie("csrftoken= abc ; Path=/; HttpOnly");
    c.apply_set_cookie("other=1");
    c.apply_set_cookie("garbage");
    assert_eq!(c.csrftoken(), "abc");
    assert!(!c.complete_login());
    c.apply_cookie("sessionid", "s1");
    c.apply_set_cookie("university_id=2001");
    assert_eq!(c.university_id(), "2001");
    assert!(c.complete_login());
    assert!(c.is_logged_in());
    assert_eq!(choose_university_id(Some("12".into()), "3078"), "12");
    assert_eq!(choose_university_id(Some("0".into()), "3078"), "3078");
    assert_eq!(choose_university_id(Some("x".into()), "3078"), "3078");
    assert_eq!(choose_university_id(None, "3078"), "3078");
    let info = obj(vec![("data", obj(vec![("university_id", num(2468))]))]);
    assert_eq!(university_id_from_response(&info), Some("2468".to_string()));
    let null = obj(vec![("data", obj(vec![("university_id", JsonValue::Null)]))]);
    assert_eq!(university_id_from_response(&null), None);
    assert_eq!(
        web_login_body(&Some("54804515".into()), &None),
        "{\"Auth\":null,\"UserID\":\"54804515\",\"host_name\":\"changjiang.yuketang.cn\",\"no_loading\":true}"
    );
    let msg = obj(vec![("Auth", text("a1")), ("UserID", num(54804515)), ("subscribe_status", JsonValue::Bool(true))]);
    let q = qr_login_result(&msg).unwrap();
    assert!(q.success);
    assert_eq!(q.user_id.as_deref(), Some("54804515"));
    assert_eq!(q.auth.as_deref(), Some("a1"));
    assert!(qr_login_result(&obj(vec![("qrcode", text("https://q"))])).is_none());
    assert_eq!(qr_code_of(&obj(vec![("qrcode", text("https://q"))])), Some("https://q"));
}

#[test]
fn yuketang_session_expiry() {
    assert!(is_session_expired(401, &JsonValue::Null));
    assert!(is_session_expired(403, &JsonValue::Null));
    assert!(!is_session_expired(200, &obj(vec![("errcode", num(0))])));
    assert!(is_session_expired(200, &obj(vec![("errcode", text("5"))])));
    assert!(!is_session_expired(200, &obj(vec![("errmsg", text("SUCCESS"))])));
    assert!(is_session_expired(200, &obj(vec![("errmsg", text("no login"))])));
    assert!(courses_from_response(401, &JsonValue::Null, T).is_err());
}

#[test]
fn yuketang_courses_and_homework() {
    assert_eq!(parse_timestamp(Some(&num(1_700_000_000_000))), Some(1_700_000_000));
    assert_eq!(parse_timestamp(Some(&text("1700000000"))), Some(1_700_000_000));
    assert_eq!(parse_timestamp(None), None);
    let list = JsonValue::Array(vec![
        obj(vec![("classroom_id", num(11)), ("course", obj(vec![("name", text("数学"))]))]),
        obj(vec![("classroom_id", num(12)), ("course", obj(vec![("name", text("旧"))])), ("end_time", num(NOW - 5))]),
        obj(vec![("classroom_id", text("13")), ("course", obj(vec![])), ("time", num(NOW - 181 * 86400))]),
        obj(vec![("classroom_id", text("14")), ("course", obj(vec![])), ("time", num(NOW - 180 * 86400))]),
        obj(vec![("course", obj(vec![]))]),
    ]);
    let data = obj(vec![("data", obj(vec![("list", list)]))]);
    let cs = courses_from_response(200, &data, T).ok().unwrap();
    let got: Vec<(String, String)> = cs.iter().map(|c| (c.course_name.clone(), c.classroom_id.clone())).collect();
    assert_eq!(got, vec![("数学".to_string(), "11".to_string()), ("未知课程".to_string(), "14".to_string())]);
    let course = YktCourse { course_name: "数学".into(), classroom_id: "11".into() };
    let acts = JsonValue::Array(vec![
        obj(vec![("courseware_id", num(9)), ("end_time", num(NOW + 100)), ("status", num(0)), ("title", text("作业1"))]),
        obj(vec![("end_time", num(NOW - 100)), ("status", num(2)), ("title", text("done"))]),
        obj(vec![("begin_time", num(NOW)), ("duration", num(600)), ("status", num(5)), ("submit_time", num(1))]),
    ]);
    let d2 = obj(vec![("data", obj(vec![("activities", acts)]))]);
    let hs = course_homework_checked(&course, &d2, T).unwrap();
    assert_eq!(hs.len(), 2);
    assert_eq!(hs[0].url, "https://changjiang.yuketang.cn/v2/web/trans/11/9?status=1");
    assert_eq!(hs[0].deadline, Some(at(NOW + 100)));
    assert!(!hs[0].submitted);
    assert_eq!(hs[1].deadline, Some(at(NOW + 600)));
    assert!(hs[1].submitted);
    assert_eq!(hs[1].title, "未知作业");
    assert_eq!(hs[1].url, "https://changjiang.yuketang.cn/v2/web/studentLog/11");
    assert_eq!(hs[1].platform, "长江雨课堂");
    let huge = obj(vec![("data", obj(vec![("activities", JsonValue::Array(vec![obj(vec![
        ("begin_time", num(NOW)),
        ("duration", num(i64::MAX)),
    ])]))]))]);
    assert!(course_homework_checked(&course, &huge, T).is_none());
}

#[test]
fn ketangpai_login_terms_and_items() {
    let mut c = KetangpaiClient::new("e@x", "pw");
    assert!(!c.login_from_response(&obj(vec![("message", text("失败"))])));
    assert!(c.token().is_none());
    let ok = obj(vec![("data", obj(vec![("token", text("T"))])), ("message", text("访问成功"))]);
    assert!(c.login_from_response(&ok));
    assert_eq!(c.token(), Some("T"));
    assert_eq!(current_term(2024, 3), "2023-2024");
    assert_eq!(current_term(2024, 9), "2024-2025");
    assert_eq!(current_term(2024, 1), "2024-2025");
    let list = obj(vec![
        ("data", JsonValue::Array(vec![
            obj(vec![("id", text("a")), ("semester", text("2023-2024"))]),
            obj(vec![("id", text("b")), ("semester", text("2022-2023"))]),
            obj(vec![("id", text("")), ("semester", text("2023-2024"))]),
        ])),
        ("message", text("访问成功")),
    ]);
    let courses = course_list_of(&list);
    let pos = term_course_positions(courses, "2023-2024");
    assert_eq!(pos, vec![0, 2]);
    assert_eq!(course_id(&courses[2]), None);
    let course = obj(vec![("coursename", text("物理")), ("id", text("a"))]);
    let content = obj(vec![
        ("data", obj(vec![("list", JsonValue::Array(vec![
            obj(vec![("id", text("h1")), ("mstatus", num(0)), ("title", text("实验"))]),
            obj(vec![("endtime", num(1000)), ("id", text("h2")), ("mstatus", num(1))]),
        ]))])),
        ("message", text("访问成功")),
    ]);
    let hs = kt_course_homework(&course, &content, T);
    assert_eq!(hs.len(), 1);
    assert_eq!(hs[0].title, "实验");
    assert_eq!(hs[0].course, "物理");
    assert_eq!(hs[0].deadline, None);
    assert_eq!(hs[0].url, "https://w.ketangpai.com/homework?id=h1&courseId=a&courseRole=0");
    assert_eq!(hs[0].platform, "课堂派");
}

#[test]
fn chaoxing_links_and_times() {
    assert_eq!(fix_url(""), "");
    assert_eq!(fix_url("/work/x?a=1"), "https://mooc1.chaoxing.com/work/x?a=1");
    assert_eq!(fix_url("https://mooc1-api.chaoxing.com/w"), "https://mooc1.chaoxing.com/w");
    assert_eq!(build_homework_url("1", "2"), "https://mooc1.chaoxing.com/visit/stucoursemiddle?ismooc2=1&courseid=1&clazzid=2&pageHeader=8");
    assert_eq!(build_exam_url("1", "2", "3"), "https://mooc1.chaoxing.com/exam-ans/exam/test/examcode/examnotes?courseId=1&classId=2&examId=3");
    let qs = query_params("/x?courseId=5&a=%E4%B8%AD&courseId=6");
    assert_eq!(qs, vec![("courseId".to_string(), "5".to_string()), ("a".to_string(), "中".to_string()), ("courseId".to_string(), "6".to_string())]);
    assert_eq!(homework_core::chaoxing::param(&qs, "courseId"), "6");
    assert_eq!(homework_core::chaoxing::param(&qs, "missing"), "");
    assert_eq!(parse_left_time("剩余3小时", T), Some(T + 3 * 3600 * NS));
    assert_eq!(parse_left_time("2天", T), Some(T + 2 * 86400 * NS));
    assert_eq!(parse_left_time("15分钟", T), Some(T + 900 * NS));
    assert_eq!(parse_left_time("即将", T), None);
    assert_eq!(parse_left_time("", T), None);
    assert!(left_time_too_long("99999999999999天"));
    assert!(!left_time_too_long("9天"));
    assert!(login_ok(&obj(vec![("result", JsonValue::Bool(true))])));
    assert!(!login_ok(&obj(vec![("msg", text("bad"))])));
}

const HOMEWORK_PAGE: &str = r#"<html><body><ul class="nav">
<li data="/mooc-ans/work/task?courseId=100&clazzId=200&taskrefId=300"><div role="option"><p> 作业一 </p><span class="status">未交</span><span> 数学 </span><div class="fr">剩余2天</div></div></li>
<li data="https://mooc1-api.chaoxing.com/x"><div role="option"><p>作业二</p><span>已交</span><span>物理</span></div></li>
<li><p>no option</p></li>
</ul></body></html>"#;

#[test]
fn chaoxing_homework_page() {
    let rows = extract_homework(HOMEWORK_PAGE, T).unwrap();
    assert_eq!(rows.len(), 2);
    assert_eq!(rows[0].title, "作业一");
    assert_eq!(rows[0].course, "数学");
    assert!(rows[0].uncommitted);
    assert_eq!(rows[0].deadline, Some(T + 2 * 86400 * NS));
    assert_eq!(rows[0].work_id, "300");
    assert_eq!(rows[0].course_id, "100");
    assert_eq!(rows[0].clazz_id, "200");
    assert!(!rows[1].uncommitted);
    assert_eq!(rows[1].deadline, None);
    let needed = needed_course_ids(&rows);
    assert_eq!(needed, vec!["100".to_string()]);
    let work = vec![("100_300".to_string(), "https://mooc1.chaoxing.com/w300".to_string())];
    let items = homework_items(&rows, &work);
    assert_eq!(items[0].url, "https://mooc1.chaoxing.com/w300");
    assert!(!items[0].submitted);
    assert_eq!(items[1].url, "https://mooc1.chaoxing.com/x");
    assert!(items[1].submitted);
    assert_eq!(items[1].platform, "超星");
    let none = extract_homework(&HOMEWORK_PAGE.replace("剩余2天", "剩余99999999999999天"), T);
    assert!(none.is_none());
}

#[test]
fn chaoxing_work_list_and_exams() {
    let visit = r#"<html><body><input id="workEnc" value="ENC"></body></html>"#;
    assert_eq!(work_enc(visit), Some("ENC".to_string()));
    assert_eq!(work_enc("<html></html>"), None);
    let list = r#"<ul><li data="/mooc2/work/dowork?workId=7"><p>A</p></li><li data="/x?workId=7"><p>B</p></li><li data="/y?workId=8"><p> </p></li></ul>"#;
    let w = work_urls("100", list);
    assert_eq!(w, vec![("100_7".to_string(), "https://mooc1.chaoxing.com/mooc2/work/dowork?workId=7".to_string())]);
    let exams_page = r#"<ul class="ks_list">
<li data="/exam/x?taskrefId=9&courseId=1&classId=2"><dl><dt>期中</dt><dd>3小时</dd></dl><span class="ks_state">未开始</span></li>
<li data="/exam/y?taskrefId=9"><dl><dt>期中重复</dt></dl></li>
<li data="/exam/z"><div class="ks_pic"><img src="/img/ks_02.png"></div><dl><dt>过期</dt></dl></li>
<li data="/exam/w"><dl><dt>完成</dt></dl><span class="ks_state">已完成</span></li>
</ul>"#;
    let rows = extract_exams(exams_page, T).unwrap();
    assert_eq!(rows.len(), 4);
    assert_eq!(rows[0].deadline, Some(T + 3 * 3600 * NS));
    assert!(rows[2].expired);
    assert!(rows[3].finished);
    let mut seen: Vec<String> = Vec::new();
    let items = exam_items(&mut seen, &rows, true);
    assert_eq!(items.len(), 1);
    assert_eq!(items[0].title, "期中");
    assert_eq!(items[0].course, "考试");
    assert_eq!(items[0].url, "https://mooc1.chaoxing.com/exam-ans/exam/test/examcode/examnotes?courseId=1&classId=2&examId=9");
    assert_eq!(seen, vec!["9".to_string(), "过期".to_string(), "完成".to_string()]);
    let table = r#"<table class="dataTable"><tr class="dataTr"><td>1</td><td> 期末 </td><td>2024-06-01 09:00 至 2024-06-01 11:00</td><td>x</td><td>进行中</td><td>未作答</td><td>a</td><td>b</td><td><a onclick="go('moocId=11&clazzid=22&examId=33')">进入</a></td></tr><tr class="dataTr"><td>short</td></tr></table>"#;
    let trows = extract_exams_table(table);
    assert_eq!(trows.len(), 1);
    assert_eq!(trows[0].title, "期末");
    assert_eq!((trows[0].course_id.as_str(), trows[0].class_id.as_str(), trows[0].exam_id.as_str()), ("11", "22", "33"));
    let d = chrono::NaiveDate::from_ymd_opt(2024, 6, 1).unwrap().and_hms_opt(9, 0, 0).unwrap();
    assert_eq!(trows[0].deadline, Some(at(d.and_utc().timestamp())));
    let titems = exam_items(&mut seen, &trows, false);
    assert_eq!(titems.len(), 1);
    assert_eq!(titems[0].url, "https://mooc1.chaoxing.com/exam-ans/exam/test/examcode/examnotes?courseId=11&classId=22&examId=33");
}

#[test]
fn chrono_range_limits() {
    assert!(chrono::DateTime::from_timestamp(MIN_TIMESTAMP, 0).is_some());
    assert!(chrono::DateTime::from_timestamp(MIN_TIMESTAMP - 1, 0).is_none());
    assert!(chrono::DateTime::from_timestamp(MAX_TIMESTAMP, 999_999_999).is_some());
    assert!(chrono::DateTime::from_timestamp(MAX_TIMESTAMP + 1, 0).is_none());
}

#[test]
fn chaoxing_courses() {
    let channels = JsonValue::Array(vec![
        obj(vec![("content", obj(vec![
            ("clazz", obj(vec![("data", JsonValue::Array(vec![obj(vec![("id", num(555))])]))])),
            ("course", obj(vec![("data", JsonValue::Array(vec![obj(vec![("id", num(42)), ("name", text("化学"))])]))])),
            ("cpi", num(9)),
        ]))]),
        obj(vec![("content", obj(vec![("state", num(1))]))]),
        obj(vec![("key", text("k")), ("content", obj(vec![("course", obj(vec![("data", obj(vec![("id", text("43"))]))]))]))]),
    ]);
    let data = obj(vec![("channelList", channels)]);
    let cs = cx_courses(&data);
    assert_eq!(cs.len(), 2);
    assert_eq!((cs[0].course_id.as_str(), cs[0].course_name.as_str(), cs[0].clazz_id.as_str(), cs[0].cpi.as_str()), ("42", "化学", "555", "9"));
    assert_eq!((cs[1].course_id.as_str(), cs[1].course_name.as_str(), cs[1].clazz_id.as_str()), ("43", "未知课程", "k"));
    let mut client = ChaoxingClient::new("u", "p");
    assert!(client.needs_courses());
    let kept = client.store_courses(&data);
    assert_eq!(kept.len(), 2);
    assert!(!client.needs_courses());
    assert_eq!(client.courses().len(), 2);
}

#[test]
fn qr_png_is_png() {
    let png = render_qr_png("https://example.com/login").ok().unwrap();
    assert_eq!(&png[1..4], b"PNG");
    let img = image::load_from_memory(&png).unwrap();
    assert!(img.width() >= 200 && img.height() >= 200);
}

#[test]
fn timestamps_outside_chrono_are_dropped() {
    assert_eq!(parse_timestamp(Some(&text("9223372036854775807"))), None);
    assert_eq!(parse_timestamp(Some(&num(-1))), Some(-1));
    let far = chrono::NaiveDate::from_ymd_opt(262142, 12, 31).unwrap().and_hms_opt(0, 0, 0).unwrap();
    assert_eq!(parse_left_time("2天", at(far.and_utc().timestamp())), None);
}

#[test]
fn ketangpai_endtime_readings() {
    let secs = obj(vec![("endtime", num(1_700_000_000))]);
    let local = chrono::DateTime::from_timestamp(1_700_000_000, 0)
        .unwrap()
        .with_timezone(&chrono::Local)
        .naive_local()
        .and_utc()
        .timestamp();
    assert_eq!(parse_endtime(&secs), Some(at(local)));
    let millis = obj(vec![("endtime", text("1700000000000"))]);
    assert_eq!(parse_endtime(&millis), Some(at(local)));
    assert_eq!(parse_endtime(&obj(vec![("endtime", text("soon"))])), None);
    assert_eq!(parse_endtime(&obj(vec![("id", text("x"))])), None);
    assert_eq!(parse_endtime(&obj(vec![("endtime", num(-9_000_000_000_000))])), None);
    // within a day of the first second chrono holds: a local time wherever the
    // zone's offset keeps it inside chrono's range
    let edge = MIN_TIMESTAMP + 3600;
    let utc = chrono::DateTime::from_timestamp(edge, 0).unwrap();
    let offset = *utc.with_timezone(&chrono::Local).offset();
    let expected = utc.naive_utc().checked_add_offset(offset).map(|t| at(t.and_utc().timestamp()));
    assert_eq!(parse_endtime(&obj(vec![("endtime", num(edge))])), expected);
}

#[test]
fn set_cookie_headers_in_order() {
    let mut c = YuketangClient::new("", "", "3078");
    let headers = vec![
        "csrftoken=one; Path=/".to_string(),
        "sessionid=s; HttpOnly".to_string(),
        "csrftoken=two".to_string(),
        "junk".to_string(),
    ];
    c.apply_set_cookies(&headers);
    assert_eq!(c.csrftoken(), "two");
    assert_eq!(c.sessionid(), "s");
    assert_eq!(c.university_id(), "3078");
}
