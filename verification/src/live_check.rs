//! The order in which a live check asks TikTok: the user-room API (through the
//! WAF-bypass client and its signed fallback when that is enabled), then the
//! live page. Each fetch is the app's; these functions say what comes next.
use vstd::prelude::*;
use crate::check_live::{opt_status_view, LiveCheckConfig, LiveStatus};
use crate::http_transport::{
    normalize_cookie_header, normalize_cookie_header_spec, proxy_url_for_reqwest, proxy_url_spec,
};
use crate::session::{opt_seq, opt_str_seq};
use crate::text::{append_str, str_chars, strip_all_leading, strip_leading_chars, string_from};

verus! {

/// The inputs of a live check once they are checked: the `Cookie` header, the
/// proxy, and the username without leading `@`.
pub struct LiveCheckPlan {
    pub cookie_header: String,
    pub proxy_url: Option<String>,
    pub username: String,
}

/// Where a live check stands.
#[derive(Debug)]
pub enum LiveCheckStep {
    /// The check is over with this answer.
    Finished(Option<LiveStatus>),
    /// The check failed with this error.
    Failed(String),
    /// Ask the user-room API through the WAF-bypass client.
    TryWafUserRoomApi,
    /// Ask the signed user-room API through the WAF-bypass client.
    TrySignedWafUserRoomApi { api_error: String },
    /// Ask the user-room API.
    TryUserRoomApi,
    /// Read the live page; the API's error goes into the message if the page has no room.
    TryLiveHtml { api_error: String },
}

/// The checked inputs, or the first error among the cookies and the proxy.
pub open spec fn live_check_plan_spec(
    cookies_json: Seq<char>,
    proxy_url: Option<Seq<char>>,
    username: Seq<char>,
) -> Result<(Seq<char>, Option<Seq<char>>, Seq<char>), Seq<char>> {
    match normalize_cookie_header_spec(cookies_json) {
        Err(e) => Err(e),
        Ok(c) => match proxy_url_spec(proxy_url) {
            Err(e) => Err(e),
            Ok(p) => Ok((c, p, strip_all_leading(username, '@'))),
        },
    }
}

/// The remaining fetches at most, before the check is over.
pub open spec fn steps_left(s: LiveCheckStep) -> nat {
    match s {
        LiveCheckStep::Finished(_) => 0,
        LiveCheckStep::Failed(_) => 0,
        LiveCheckStep::TryWafUserRoomApi => 3,
        LiveCheckStep::TrySignedWafUserRoomApi { .. } => 2,
        LiveCheckStep::TryUserRoomApi => 2,
        LiveCheckStep::TryLiveHtml { .. } => 1,
    }
}

pub open spec fn is_over(s: LiveCheckStep) -> bool {
    s is Finished || s is Failed
}

/// Checks the cookies and the proxy of a live check and strips the username.
pub fn prepare_live_check(config: &LiveCheckConfig) -> (r: Result<LiveCheckPlan, String>)
    ensures
        match r {
            Ok(p) => live_check_plan_spec(config.cookies_json@, opt_str_seq(config.proxy_url), config.username@)
                == Ok::<(Seq<char>, Option<Seq<char>>, Seq<char>), Seq<char>>((p.cookie_header@, opt_seq(p.proxy_url), p.username@)),
            Err(e) => live_check_plan_spec(config.cookies_json@, opt_str_seq(config.proxy_url), config.username@)
                == Err::<(Seq<char>, Option<Seq<char>>, Seq<char>), Seq<char>>(e@),
        },
{
    let cookie_header = match normalize_cookie_header(config.cookies_json) {
        Ok(c) => c,
        Err(e) => return Err(e),
    };
    let proxy_url = match proxy_url_for_reqwest(config.proxy_url) {
        Ok(p) => p,
        Err(e) => return Err(e),
    };
    let name = str_chars(config.username);
    let stripped = strip_leading_chars(name.as_slice(), '@');
    Ok(LiveCheckPlan { cookie_header, proxy_url, username: string_from(stripped.as_slice()) })
}

/// The first step: nothing to ask for an empty username; else the WAF-bypass
/// API when it is enabled, the plain API otherwise.
pub fn first_live_check_step(plan: &LiveCheckPlan, waf_bypass_enabled: bool) -> (r: LiveCheckStep)
    ensures
        plan.username@.len() == 0 ==> r matches LiveCheckStep::Finished(None),
        plan.username@.len() > 0 && waf_bypass_enabled ==> r is TryWafUserRoomApi,
        plan.username@.len() > 0 && !waf_bypass_enabled ==> r is TryUserRoomApi,
{
    if plan.username.as_str().unicode_len() == 0 {
        LiveCheckStep::Finished(None)
    } else if waf_bypass_enabled {
        LiveCheckStep::TryWafUserRoomApi
    } else {
        LiveCheckStep::TryUserRoomApi
    }
}

/// The step after `step` given what its fetch returned: an answer ends the
/// check; an API error falls back (WAF API to signed API, then either API to
/// the live page, with the errors joined); an error of the live page ends it.
pub fn next_live_check_step(step: LiveCheckStep, outcome: Result<Option<LiveStatus>, String>) -> (r: LiveCheckStep)
    ensures
        is_over(step) ==> r == step,
        !is_over(step) && outcome is Ok ==> r == LiveCheckStep::Finished(outcome->Ok_0),
        !is_over(step) ==> steps_left(r) < steps_left(step),
        match (step, outcome) {
            (LiveCheckStep::TryWafUserRoomApi, Err(e)) => r matches LiveCheckStep::TrySignedWafUserRoomApi { api_error }
                && api_error@ == e@,
            (LiveCheckStep::TrySignedWafUserRoomApi { api_error: first }, Err(e)) => r matches LiveCheckStep::TryLiveHtml { api_error }
                && api_error@ == first@ + "; signed fallback: "@ + e@,
            (LiveCheckStep::TryUserRoomApi, Err(e)) => r matches LiveCheckStep::TryLiveHtml { api_error } && api_error@ == e@,
            (LiveCheckStep::TryLiveHtml { .. }, Err(e)) => r matches LiveCheckStep::Failed(m) && m@ == e@,
            _ => true,
        },
{
    match step {
        LiveCheckStep::Finished(s) => LiveCheckStep::Finished(s),
        LiveCheckStep::Failed(e) => LiveCheckStep::Failed(e),
        LiveCheckStep::TryWafUserRoomApi => match outcome {
            Ok(s) => LiveCheckStep::Finished(s),
            Err(e) => LiveCheckStep::TrySignedWafUserRoomApi { api_error: e },
        },
        LiveCheckStep::TrySignedWafUserRoomApi { api_error } => match outcome {
            Ok(s) => LiveCheckStep::Finished(s),
            Err(e) => {
                let mut v = str_chars(api_error.as_str());
                append_str(&mut v, "; signed fallback: ");
                append_str(&mut v, e.as_str());
                LiveCheckStep::TryLiveHtml { api_error: string_from(v.as_slice()) }
            },
        },
        LiveCheckStep::TryUserRoomApi => match outcome {
            Ok(s) => LiveCheckStep::Finished(s),
            Err(e) => LiveCheckStep::TryLiveHtml { api_error: e },
        },
        LiveCheckStep::TryLiveHtml { .. } => match outcome {
            Ok(s) => LiveCheckStep::Finished(s),
            Err(e) => LiveCheckStep::Failed(e),
        },
    }
}

/// A live check asks at most three times: every step before the end brings it closer.
pub proof fn law_live_check_ends(step: LiveCheckStep)
    ensures
        steps_left(step) <= 3,
        is_over(step) <==> steps_left(step) == 0,
{
}

/// The URL a signed path is fetched from: itself when it is absolute, else
/// under `https://www.tiktok.com`.
pub open spec fn signed_url_spec(path: Seq<char>) -> Seq<char> {
    if crate::text::starts_with(path, "http://"@) || crate::text::starts_with(path, "https://"@) {
        path
    } else {
        "https://www.tiktok.com"@ + path
    }
}

pub fn signed_api_url(signed_path: &str) -> (r: String)
    ensures
        r@ == signed_url_spec(signed_path@),
{
    let p = str_chars(signed_path);
    if crate::text::starts_with_str(p.as_slice(), "http://") || crate::text::starts_with_str(p.as_slice(), "https://") {
        string_from(p.as_slice())
    } else {
        let mut v = str_chars("https://www.tiktok.com");
        append_str(&mut v, signed_path);
        string_from(v.as_slice())
    }
}

} // verus!
