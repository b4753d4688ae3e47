use homework_core::cache::{cache_entries, cache_text, items_from_cache, CacheEntry};
use homework_core::config::{
    config_to_json, default_university_id, save_yuketang_session,
    AppConfig,
};
use homework_core::json::{id_text, json_int, to_json_string, JsonNumber, JsonValue};
use homework_core::log::{begin_capture, capture_line, end_capture};
use homework_core::models::HomeworkItem;
use homework_core::paths::{config_candidates, config_path, resolve_config_path, PathParts};
use homework_core::text::{fmt_i64, parse_i64, replace_str, trim, trim_end};

fn sample_config() -> AppConfig {
    let mut c = AppConfig::default();
    c.chaoxing.enabled = true;
    c.chaoxing.user = "alice".to_string();
    c.chaoxing.password = "p\"w\\d\n\u{1}".to_string();
    c.ketangpai.email = "a@b.c".to_string();
    c.yuketang.csrftoken = "中文".to_string();
    c
}

fn serde_config(c: &AppConfig) -> serde_json::Value {
    let mut cx = serde_json::Map::new();
    cx.insert("enabled".into(), c.chaoxing.enabled.into());
    cx.insert("user".into(), c.chaoxing.user.clone().into());
    cx.insert("password".into(), c.chaoxing.password.clone().into());
    let mut kt = serde_json::Map::new();
    kt.insert("enabled".into(), c.ketangpai.enabled.into());
    kt.insert("email".into(), c.ketangpai.email.clone().into());
    kt.insert("password".into(), c.ketangpai.password.clone().into());
    let mut yk = serde_json::Map::new();
    yk.insert("enabled".into(), c.yuketang.enabled.into());
    yk.insert("csrftoken".into(), c.yuketang.csrftoken.clone().into());
    yk.insert("sessionid".into(), c.yuketang.sessionid.clone().into());
    yk.insert("university_id".into(), c.yuketang.university_id.clone().into());
    let mut root = serde_json::Map::new();
    root.insert("chaoxing".into(), cx.into());
    root.insert("ketangpai".into(), kt.into());
    root.insert("yuketang".into(), yk.into());
    serde_json::Value::Object(root)
}

#[test]
fn config_text_reads_back() {
    let c = sample_config();
    let text = config_to_json(&c);
    let back: serde_json::Value = serde_json::from_str(&text).unwrap();
    assert_eq!(back, serde_config(&c));
    assert!(text.starts_with("{\n  \"chaoxing\": {\n    \"enabled\": true,\n    \"user\": \"alice\","));
    assert!(text.contains("\"password\": \"p\\\"w\\\\d\\n\\u0001\""));
    assert!(text.ends_with("\"university_id\": \"3078\"\n  }\n}"));
}

#[test]
fn defaults_and_refresh() {
    let c = AppConfig::default();
    assert!(!c.should_auto_refresh());
    assert_eq!(default_university_id(), "3078");
    let mut c2 = sample_config();
    assert!(c2.should_auto_refresh());
    c2.chaoxing.password.clear();
    assert!(!c2.should_auto_refresh());
    c2.ketangpai.enabled = true;
    assert!(!c2.should_auto_refresh());
    c2.ketangpai.password = "x".to_string();
    assert!(c2.should_auto_refresh());
}

#[test]
fn saved_session_is_enabled_and_written() {
    let mut c = AppConfig::default();
    let text = save_yuketang_session(&mut c, "tok", "sid");
    assert!(c.yuketang.enabled);
    assert_eq!(c.yuketang.csrftoken, "tok");
    assert_eq!(c.yuketang.sessionid, "sid");
    assert_eq!(c.yuketang.university_id, "3078");
    assert!(c.should_auto_refresh());
    assert_eq!(text, config_to_json(&c));
    assert!(text.contains("\"csrftoken\": \"tok\""));
}

fn path(anchor: &str, parts: &[&str]) -> PathParts {
    PathParts { anchor: anchor.to_string(), parts: parts.iter().map(|s| s.to_string()).collect() }
}

fn shown(p: &PathParts) -> String {
    format!("{}{}", p.anchor, p.parts.join("/"))
}

#[test]
fn candidates_walk_up_and_drop_repeats() {
    let exe = path("/", &["opt", "hw"]);
    let cwd = path("/", &["opt", "hw", "run"]);
    let app = path("/", &["opt", "hw"]);
    let env = Some(path("/", &["etc", "hw.json"]));
    let c = config_candidates(env, Some(exe), Some(cwd), &app);
    let got: Vec<String> = c.iter().map(shown).collect();
    assert_eq!(
        got,
        vec![
            "/etc/hw.json",
            "/opt/hw/config.json",
            "/opt/config.json",
            "/config.json",
            "/opt/hw/run/config.json",
        ]
    );
}

#[test]
fn candidates_stop_after_eight_levels() {
    let deep: Vec<String> = (0..12).map(|i| format!("d{i}")).collect();
    let refs: Vec<&str> = deep.iter().map(|s| s.as_str()).collect();
    let start = path("/", &refs);
    let app = path("", &["."]);
    let c = config_candidates(None, Some(start), None, &app);
    assert_eq!(c.len(), 10);
    assert_eq!(shown(&c[0]), format!("/{}/config.json", deep.join("/")));
    assert_eq!(shown(&c[8]), format!("/{}/config.json", deep[..4].join("/")));
    assert_eq!(shown(&c[9]), "./config.json");
}

#[test]
fn relative_start_walks_to_empty_path() {
    let app = path("", &["x"]);
    let c = config_candidates(None, None, Some(path("", &["a"])), &app);
    let got: Vec<String> = c.iter().map(shown).collect();
    assert_eq!(got, vec!["a/config.json", "config.json", "x/config.json"]);
}

#[test]
fn resolve_takes_first_existing_file() {
    let c = vec![path("/", &["a", "config.json"]), path("/", &["b", "config.json"]), path("/", &["config.json"])];
    let found = resolve_config_path(&c, &vec![false, true, true]).unwrap();
    assert_eq!(shown(&found), "/b/config.json");
    assert!(resolve_config_path(&c, &vec![false, false, false]).is_none());
    let app = path("/", &["opt", "hw"]);
    assert_eq!(shown(&config_path(None, &app)), "/opt/hw/config.json");
    assert_eq!(shown(&config_path(Some(found), &app)), "/b/config.json");
}

#[test]
fn capture_collects_lines() {
    let mut cap: Option<String> = None;
    capture_line(&mut cap, "dropped");
    assert_eq!(end_capture(&mut cap), "");
    begin_capture(&mut cap);
    capture_line(&mut cap, "one");
    capture_line(&mut cap, "two\n");
    capture_line(&mut cap, "");
    assert_eq!(end_capture(&mut cap), "one\ntwo\n\n");
    assert!(cap.is_none());
    assert_eq!(end_capture(&mut cap), "");
}

#[test]
fn integer_text() {
    assert_eq!(parse_i64("42"), Some(42));
    assert_eq!(parse_i64("+7"), Some(7));
    assert_eq!(parse_i64("-9223372036854775808"), Some(i64::MIN));
    assert_eq!(parse_i64("9223372036854775807"), Some(i64::MAX));
    assert_eq!(parse_i64("9223372036854775808"), None);
    assert_eq!(parse_i64("99999999999999999999999"), None);
    assert_eq!(parse_i64(""), None);
    assert_eq!(parse_i64("-"), None);
    assert_eq!(parse_i64(" 1"), None);
    assert_eq!(parse_i64("1a"), None);
    for s in ["0", "-1", "123456", "+0", "00012"] {
        assert_eq!(parse_i64(s), s.parse::<i64>().ok());
    }
    assert_eq!(fmt_i64(i64::MIN), i64::MIN.to_string());
    assert_eq!(fmt_i64(-305), "-305");
    assert_eq!(fmt_i64(0), "0");
}

#[test]
fn trim_and_replace_match_std() {
    for s in ["  a b  ", "\u{3000}x\u{a0}", "", "   ", "\tq\n"] {
        assert_eq!(trim(s), s.trim());
        assert_eq!(trim_end(s), s.trim_end());
    }
    for (s, p, t) in [("aaa", "aa", "b"), ("x-api-y-api", "-api", ""), ("none", "zz", "q")] {
        assert_eq!(replace_str(s, p, t), s.replace(p, t));
    }
}

fn to_value(v: &serde_json::Value) -> JsonValue {
    match v {
        serde_json::Value::Null => JsonValue::Null,
        serde_json::Value::Bool(b) => JsonValue::Bool(*b),
        serde_json::Value::Number(n) => {
            if let Some(u) = n.as_u64() {
                JsonValue::Number(JsonNumber::PosInt(u))
            } else if let Some(i) = n.as_i64() {
                JsonValue::Number(JsonNumber::NegInt(i))
            } else {
                JsonValue::Number(JsonNumber::Float(n.to_string()))
            }
        }
        serde_json::Value::String(s) => JsonValue::String(s.clone()),
        serde_json::Value::Array(a) => JsonValue::Array(a.iter().map(to_value).collect()),
        serde_json::Value::Object(m) => {
            JsonValue::Object(m.iter().map(|(k, v)| (k.clone(), to_value(v))).collect())
        }
    }
}

#[test]
fn compact_text_and_ids_match_serde() {
    let src = r#"{"a":[1,-2,3.5,true,null,"q\"\u0007é"],"b":{"c":"d"},"id":"x"}"#;
    let v: serde_json::Value = serde_json::from_str(src).unwrap();
    let mine = to_value(&v);
    assert_eq!(to_json_string(&mine), v.to_string());
    let id: serde_json::Value = serde_json::from_str(r#""abc""#).unwrap();
    assert_eq!(id_text(&to_value(&id)), id.to_string().trim_matches('"'));
    let n: serde_json::Value = serde_json::from_str("12345").unwrap();
    assert_eq!(id_text(&to_value(&n)), "12345");
    assert_eq!(id_text(&JsonValue::Null), "null");
    assert_eq!(json_int(Some(&JsonValue::String("12".into()))), Some(12));
    assert_eq!(json_int(Some(&JsonValue::Bool(true))), Some(1));
    assert_eq!(json_int(Some(&JsonValue::Number(JsonNumber::Float("1.5".into())))), None);
    assert_eq!(json_int(Some(&JsonValue::Number(JsonNumber::PosInt(u64::MAX)))), None);
    assert_eq!(json_int(None), None);
}

const NS: i128 = 1_000_000_000;

#[test]
fn cache_round_trip() {
    let d = chrono::NaiveDate::from_ymd_opt(2024, 12, 31).unwrap().and_hms_opt(23, 59, 0).unwrap();
    let items = vec![
        HomeworkItem {
            title: "t\"1".into(),
            course: "c".into(),
            deadline: Some(d.and_utc().timestamp() as i128 * NS + 250_000_000),
            platform: "超星".into(),
            submitted: false,
            url: "u".into(),
        },
        HomeworkItem {
            title: "t2".into(),
            course: "c2".into(),
            deadline: None,
            platform: "p".into(),
            submitted: true,
            url: "".into(),
        },
    ];
    let entries = cache_entries(&items);
    assert_eq!(entries[0].deadline.as_deref(), Some("2024-12-31T23:59:00"));
    assert_eq!(entries[1].deadline, None);
    let text = cache_text("2024-01-01T00:00:00+08:00", &entries);
    let v: serde_json::Value = serde_json::from_str(&text).unwrap();
    assert_eq!(v["items"][0]["title"], "t\"1");
    assert_eq!(v["items"][1]["deadline"], serde_json::Value::Null);
    assert_eq!(v["updated_at"], "2024-01-01T00:00:00+08:00");
    assert!(text.starts_with("{\n  \"updated_at\": \"2024-01-01T00:00:00+08:00\",\n  \"items\": [\n    {\n      \"title\": \"t\\\"1\",\n      \"course\": \"c\",\n      \"deadline\": \"2024-12-31T23:59:00\","));
    assert!(text.ends_with("      \"url\": \"\"\n    }\n  ]\n}"));
    let back = items_from_cache(&entries);
    assert_eq!(back[0].deadline, Some(d.and_utc().timestamp() as i128 * NS));
    assert_eq!(back[1].submitted, true);
    let empty: Vec<CacheEntry> = Vec::new();
    assert_eq!(cache_text("x", &empty), "{\n  \"updated_at\": \"x\",\n  \"items\": []\n}");
}

#[test]
fn compact_text_orders_object_keys_as_serde() {
    let v = JsonValue::Object(vec![
        ("z".to_string(), JsonValue::Number(JsonNumber::PosInt(1))),
        ("a".to_string(), JsonValue::Array(vec![JsonValue::Number(JsonNumber::NegInt(-2)), JsonValue::Null])),
    ]);
    assert_eq!(to_json_string(&v), "{\"a\":[-2,null],\"z\":1}");
    assert_eq!(to_json_string(&JsonValue::Number(JsonNumber::Float("2.5".into()))), "2.5");
}

#[test]
fn fetch_progress_and_skip_lines() {
    assert_eq!(homework_core::fetch::progress_text("超星"), "正在获取超星...");
    assert_eq!(
        homework_core::fetch::step_log_text("课堂派", homework_core::fetch::YuketangStep::Skip),
        "[课堂派] 未配置或未启用，跳过"
    );
    assert_eq!(
        homework_core::fetch::step_log_text("长江雨课堂", homework_core::fetch::YuketangStep::NotLoggedIn),
        "[长江雨课堂] 未登录，请在配置页扫码登录"
    );
    assert!(!homework_core::fetch::keeps_cache(&[]));
}
