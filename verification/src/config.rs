//! The configuration: which platforms are enabled and their credentials, and
//! the text of the configuration file.

use vstd::prelude::*;
use vstd::string::*;
use crate::json::{push_quoted, quoted};

verus! {

/// Chaoxing account.
#[derive(Clone, Debug)]
pub struct ChaoxingConfig {
    pub enabled: bool,
    pub user: String,
    pub password: String,
}

/// Ketangpai account.
#[derive(Clone, Debug)]
pub struct KetangpaiConfig {
    pub enabled: bool,
    pub email: String,
    pub password: String,
}

/// Yuketang session.
#[derive(Clone, Debug)]
pub struct YuketangConfig {
    pub enabled: bool,
    pub csrftoken: String,
    pub sessionid: String,
    pub university_id: String,
}

/// The whole configuration.
#[derive(Clone, Debug)]
pub struct AppConfig {
    pub chaoxing: ChaoxingConfig,
    pub ketangpai: KetangpaiConfig,
    pub yuketang: YuketangConfig,
}

/// One platform's part of the configuration.
pub enum PlatformConfig {
    Chaoxing(ChaoxingConfig),
    Ketangpai(KetangpaiConfig),
    Yuketang(YuketangConfig),
}

/// The university id used when none is configured.
pub open spec fn spec_default_university_id() -> Seq<char> {
    "3078"@
}

/// The university id used when none is configured.
pub fn default_university_id() -> (r: String)
    ensures
        r@ == spec_default_university_id(),
{
    String::from_str("3078")
}

impl Default for ChaoxingConfig {
    fn default() -> (r: Self)
        ensures
            !r.enabled,
            r.user@ == Seq::<char>::empty(),
            r.password@ == Seq::<char>::empty(),
    {
        ChaoxingConfig { enabled: false, user: String::new(), password: String::new() }
    }
}

impl Default for KetangpaiConfig {
    fn default() -> (r: Self)
        ensures
            !r.enabled,
            r.email@ == Seq::<char>::empty(),
            r.password@ == Seq::<char>::empty(),
    {
        KetangpaiConfig { enabled: false, email: String::new(), password: String::new() }
    }
}

impl Default for YuketangConfig {
    fn default() -> (r: Self)
        ensures
            !r.enabled,
            r.csrftoken@ == Seq::<char>::empty(),
            r.sessionid@ == Seq::<char>::empty(),
            r.university_id@ == spec_default_university_id(),
    {
        YuketangConfig {
            enabled: false,
            csrftoken: String::new(),
            sessionid: String::new(),
            university_id: default_university_id(),
        }
    }
}

/// Every platform disabled and without credentials; the default university id.
pub open spec fn is_default_config(c: AppConfig) -> bool {
    &&& !c.chaoxing.enabled
    &&& c.chaoxing.user@ == Seq::<char>::empty()
    &&& c.chaoxing.password@ == Seq::<char>::empty()
    &&& !c.ketangpai.enabled
    &&& c.ketangpai.email@ == Seq::<char>::empty()
    &&& c.ketangpai.password@ == Seq::<char>::empty()
    &&& !c.yuketang.enabled
    &&& c.yuketang.csrftoken@ == Seq::<char>::empty()
    &&& c.yuketang.sessionid@ == Seq::<char>::empty()
    &&& c.yuketang.university_id@ == spec_default_university_id()
}

impl Default for AppConfig {
    fn default() -> (r: Self)
        ensures
            is_default_config(r),
    {
        AppConfig {
            chaoxing: ChaoxingConfig::default(),
            ketangpai: KetangpaiConfig::default(),
            yuketang: YuketangConfig::default(),
        }
    }
}

/// Chaoxing is enabled and has a user name and a password.
pub open spec fn chaoxing_ready(c: ChaoxingConfig) -> bool {
    c.enabled && c.user@.len() > 0 && c.password@.len() > 0
}

/// Ketangpai is enabled and has an e-mail address and a password.
pub open spec fn ketangpai_ready(c: KetangpaiConfig) -> bool {
    c.enabled && c.email@.len() > 0 && c.password@.len() > 0
}

/// Yuketang is enabled and has both session cookies.
pub open spec fn yuketang_ready(c: YuketangConfig) -> bool {
    c.enabled && c.csrftoken@.len() > 0 && c.sessionid@.len() > 0
}

fn non_empty(s: &String) -> (r: bool)
    ensures
        r == (s@.len() > 0),
{
    !s.as_str().is_empty()
}

impl ChaoxingConfig {
    /// Enabled and has credentials.
    pub fn is_ready(&self) -> (r: bool)
        ensures
            r == chaoxing_ready(*self),
    {
        self.enabled && non_empty(&self.user) && non_empty(&self.password)
    }
}

impl KetangpaiConfig {
    /// Enabled and has credentials.
    pub fn is_ready(&self) -> (r: bool)
        ensures
            r == ketangpai_ready(*self),
    {
        self.enabled && non_empty(&self.email) && non_empty(&self.password)
    }
}

impl AppConfig {
    /// Whether the list should be fetched again at start-up: some platform is
    /// enabled and has its credentials.
    pub fn should_auto_refresh(&self) -> (r: bool)
        ensures
            r == (chaoxing_ready(self.chaoxing) || ketangpai_ready(self.ketangpai) || yuketang_ready(
                self.yuketang,
            )),
    {
        if self.chaoxing.is_ready() {
            return true;
        }
        if self.ketangpai.is_ready() {
            return true;
        }
        if self.yuketang.enabled && non_empty(&self.yuketang.csrftoken) && non_empty(
            &self.yuketang.sessionid,
        ) {
            return true;
        }
        false
    }
}

pub open spec fn bool_text(b: bool) -> Seq<char> {
    if b {
        "true"@
    } else {
        "false"@
    }
}

/// The configuration file's text: serde_json's pretty form, two spaces per
/// level, fields in declaration order, no final newline.
pub open spec fn config_text(c: AppConfig) -> Seq<char> {
    "{\n  \"chaoxing\": {\n    \"enabled\": "@ + bool_text(c.chaoxing.enabled) + ",\n    \"user\": "@
        + quoted(c.chaoxing.user@) + ",\n    \"password\": "@ + quoted(c.chaoxing.password@)
        + "\n  },\n  \"ketangpai\": {\n    \"enabled\": "@ + bool_text(c.ketangpai.enabled)
        + ",\n    \"email\": "@ + quoted(c.ketangpai.email@) + ",\n    \"password\": "@ + quoted(
        c.ketangpai.password@,
    ) + "\n  },\n  \"yuketang\": {\n    \"enabled\": "@ + bool_text(c.yuketang.enabled)
        + ",\n    \"csrftoken\": "@ + quoted(c.yuketang.csrftoken@) + ",\n    \"sessionid\": "@
        + quoted(c.yuketang.sessionid@) + ",\n    \"university_id\": "@ + quoted(
        c.yuketang.university_id@,
    ) + "\n  }\n}"@
}

fn push_bool(out: &mut String, b: bool)
    ensures
        final(out)@ == old(out)@ + bool_text(b),
{
    if b {
        out.append("true");
    } else {
        out.append("false");
    }
}

/// The configuration file's text.
pub fn config_to_json(c: &AppConfig) -> (r: String)
    ensures
        r@ == config_text(*c),
{
    let mut out = String::from_str("{\n  \"chaoxing\": {\n    \"enabled\": ");
    push_bool(&mut out, c.chaoxing.enabled);
    out.append(",\n    \"user\": ");
    push_quoted(&mut out, c.chaoxing.user.as_str());
    out.append(",\n    \"password\": ");
    push_quoted(&mut out, c.chaoxing.password.as_str());
    out.append("\n  },\n  \"ketangpai\": {\n    \"enabled\": ");
    push_bool(&mut out, c.ketangpai.enabled);
    out.append(",\n    \"email\": ");
    push_quoted(&mut out, c.ketangpai.email.as_str());
    out.append(",\n    \"password\": ");
    push_quoted(&mut out, c.ketangpai.password.as_str());
    out.append("\n  },\n  \"yuketang\": {\n    \"enabled\": ");
    push_bool(&mut out, c.yuketang.enabled);
    out.append(",\n    \"csrftoken\": ");
    push_quoted(&mut out, c.yuketang.csrftoken.as_str());
    out.append(",\n    \"sessionid\": ");
    push_quoted(&mut out, c.yuketang.sessionid.as_str());
    out.append(",\n    \"university_id\": ");
    push_quoted(&mut out, c.yuketang.university_id.as_str());
    out.append("\n  }\n}");
    out
}

/// Stores a new Yuketang session in the configuration and enables Yuketang;
/// returns the configuration file's new text, to be written.
pub fn save_yuketang_session(config: &mut AppConfig, csrftoken: &str, sessionid: &str) -> (r:
    String)
    ensures
        final(config).yuketang.csrftoken@ == csrftoken@,
        final(config).yuketang.sessionid@ == sessionid@,
        final(config).yuketang.enabled,
        final(config).yuketang.university_id == old(config).yuketang.university_id,
        final(config).chaoxing == old(config).chaoxing,
        final(config).ketangpai == old(config).ketangpai,
        r@ == config_text(*final(config)),
{
    config.yuketang.csrftoken = String::from_str(csrftoken);
    config.yuketang.sessionid = String::from_str(sessionid);
    config.yuketang.enabled = true;
    config_to_json(config)
}

/// After a session with both cookies is stored, the list is fetched at
/// start-up.
pub proof fn lemma_saved_session_refreshes(c: AppConfig)
    requires
        c.yuketang.enabled,
        c.yuketang.csrftoken@.len() > 0,
        c.yuketang.sessionid@.len() > 0,
    ensures
        chaoxing_ready(c.chaoxing) || ketangpai_ready(c.ketangpai) || yuketang_ready(c.yuketang),
{
}

/// The default configuration fetches nothing at start-up.
pub proof fn lemma_default_does_not_refresh(c: AppConfig)
    requires
        is_default_config(c),
    ensures
        !(chaoxing_ready(c.chaoxing) || ketangpai_ready(c.ketangpai) || yuketang_ready(c.yuketang)),
{
}

} // verus!
