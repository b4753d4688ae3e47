use homework_core::json::{JsonNumber, JsonValue};
use homework_core::ketangpai::ketangpai_is_submitted;
use homework_core::yuketang::yuketang_is_submitted;

fn num(n: i64) -> JsonValue {
    if n >= 0 {
        JsonValue::Number(JsonNumber::PosInt(n as u64))
    } else {
        JsonValue::Number(JsonNumber::NegInt(n))
    }
}

fn text(s: &str) -> JsonValue {
    JsonValue::String(s.to_string())
}

fn obj(entries: Vec<(&str, JsonValue)>) -> JsonValue {
    JsonValue::Object(entries.into_iter().map(|(k, v)| (k.to_string(), v)).collect())
}

#[test]
fn mstatus_zero_is_pending() {
    let item = obj(vec![("mstatus", num(0)), ("timestate", num(2))]);
    assert!(!ketangpai_is_submitted(&item));
}

#[test]
fn mstatus_graded_is_submitted() {
    let item = obj(vec![("mstatus", num(2))]);
    assert!(ketangpai_is_submitted(&item));
}

#[test]
fn mstatus_submitted_string() {
    let item = obj(vec![("mstatus", text("1"))]);
    assert!(ketangpai_is_submitted(&item));
}

#[test]
fn mstatus_one_is_submitted() {
    let item = obj(vec![("mstatus", num(1))]);
    assert!(ketangpai_is_submitted(&item));
}

#[test]
fn mstatus_missing_or_unreadable_is_pending() {
    assert!(!ketangpai_is_submitted(&obj(vec![("timestate", num(3))])));
    assert!(!ketangpai_is_submitted(&obj(vec![("mstatus", text("x"))])));
    assert!(ketangpai_is_submitted(&obj(vec![("mstatus", JsonValue::Bool(true))])));
    assert!(!ketangpai_is_submitted(&obj(vec![("mstatus", JsonValue::Bool(false))])));
}

#[test]
fn status_not_submitted_is_pending() {
    assert!(!yuketang_is_submitted(&obj(vec![("status", num(0))])));
    assert!(!yuketang_is_submitted(&obj(vec![("status", num(1))])));
}

#[test]
fn status_graded_is_submitted() {
    assert!(yuketang_is_submitted(&obj(vec![("status", num(2))])));
    assert!(yuketang_is_submitted(&obj(vec![("status", num(3))])));
}

#[test]
fn status_five_without_submit_time_is_partial() {
    let partial = obj(vec![("status", num(5)), ("title", text("quiz"))]);
    assert!(!yuketang_is_submitted(&partial));
}

#[test]
fn status_five_with_submit_time_is_submitted() {
    let done = obj(vec![("status", num(5)), ("submit_time", num(1_700_000_000_000))]);
    assert!(yuketang_is_submitted(&done));
}

#[test]
fn status_five_with_is_submitted_flag() {
    let done = obj(vec![("is_submitted", JsonValue::Bool(true)), ("status", num(5))]);
    assert!(yuketang_is_submitted(&done));
}

#[test]
fn status_absent_is_pending() {
    assert!(!yuketang_is_submitted(&obj(vec![("status", num(6))])));
}

#[test]
fn status_five_with_user_submit_time_is_submitted() {
    let user = obj(vec![("submit_time", text("1700000000"))]);
    assert!(yuketang_is_submitted(&obj(vec![("status", num(5)), ("user", user)])));
    let zero = obj(vec![("submitTime", num(0))]);
    assert!(!yuketang_is_submitted(&obj(vec![("status", num(5)), ("user", zero)])));
    assert!(yuketang_is_submitted(&obj(vec![("commitTime", num(3)), ("status", text("5"))])));
}
