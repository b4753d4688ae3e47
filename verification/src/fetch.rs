//! The outcome of one fetch over all platforms.

use vstd::prelude::*;
use vstd::string::*;
use crate::models::HomeworkItem;

verus! {

/// The items of a fetch and the log lines it captured.
pub struct FetchResult {
    pub items: Vec<HomeworkItem>,
    pub log: String,
}

/// The log after a failed fetch: the error on a line of its own.
pub open spec fn failed_log(log: Seq<char>, error: Seq<char>) -> Seq<char> {
    log + "\n错误: "@ + error + "\n"@
}

/// The result of a fetch: its items, or no items and the error added to the
/// log.
pub fn fetch_result(outcome: Result<Vec<HomeworkItem>, String>, log: String) -> (r: FetchResult)
    ensures
        match outcome {
            Ok(items) => r.items == items && r.log@ == log@,
            Err(e) => r.items@.len() == 0 && r.log@ == failed_log(log@, e@),
        },
{
    match outcome {
        Ok(items) => FetchResult { items, log },
        Err(e) => {
            let mut log = log;
            log.append("\n错误: ");
            log.append(e.as_str());
            log.append("\n");
            FetchResult { items: Vec::new(), log }
        },
    }
}

/// What a fetch does about Yuketang.
#[derive(Clone, Copy, Debug, PartialEq, Eq, Structural)]
pub enum YuketangStep {
    /// The session is usable: fetch.
    Fetch,
    /// Enabled without a usable session: ask for a scan login.
    NotLoggedIn,
    /// Not enabled: skip.
    Skip,
}

/// What a fetch does about Yuketang: fetch with a usable session, else ask
/// for a scan login when enabled, else skip.
pub fn yuketang_step(logged_in: bool, enabled: bool) -> (r: YuketangStep)
    ensures
        r == (if logged_in {
            YuketangStep::Fetch
        } else if enabled {
            YuketangStep::NotLoggedIn
        } else {
            YuketangStep::Skip
        }),
{
    if logged_in {
        YuketangStep::Fetch
    } else if enabled {
        YuketangStep::NotLoggedIn
    } else {
        YuketangStep::Skip
    }
}

/// The progress line shown while a platform is fetched.
pub open spec fn spec_progress_text(label: Seq<char>) -> Seq<char> {
    "正在获取"@ + label + "..."@
}

/// The progress line shown while a platform is fetched.
pub fn progress_text(label: &str) -> (r: String)
    ensures
        r@ == spec_progress_text(label@),
{
    let mut r = String::from_str("正在获取");
    r.append(label);
    r.append("...");
    r
}

/// The log line for a platform that is skipped, and for Yuketang without a
/// usable session.
pub open spec fn spec_step_log_text(label: Seq<char>, step: YuketangStep) -> Seq<char> {
    "["@ + label + "] "@ + match step {
        YuketangStep::NotLoggedIn => "未登录，请在配置页扫码登录"@,
        _ => "未配置或未启用，跳过"@,
    }
}

/// The log line for a platform that is skipped (`Skip`), or for Yuketang
/// without a usable session (`NotLoggedIn`).
pub fn step_log_text(label: &str, step: YuketangStep) -> (r: String)
    ensures
        r@ == spec_step_log_text(label@, step),
{
    let mut r = String::from_str("[");
    r.append(label);
    r.append("] ");
    match step {
        YuketangStep::NotLoggedIn => r.append("未登录，请在配置页扫码登录"),
        _ => r.append("未配置或未启用，跳过"),
    }
    r
}

/// The cache is written after a fetch only when it brought items.
pub fn keeps_cache(items: &[HomeworkItem]) -> (r: bool)
    ensures
        r == (items@.len() > 0),
{
    items.len() > 0
}

} // verus!
