use tikclip::check_live::{LiveCheckConfig, LiveStatus};
use tikclip::live_check::{
    first_live_check_step, next_live_check_step, prepare_live_check, signed_api_url, LiveCheckStep,
};

fn cfg<'a>(username: &'a str, cookies: &'a str, proxy: Option<&'a str>) -> LiveCheckConfig<'a> {
    LiveCheckConfig { username, cookies_json: cookies, proxy_url: proxy, waf_bypass_enabled: true }
}

#[test]
fn plan_checks_cookies_and_proxy_and_strips_username() {
    let plan = prepare_live_check(&cfg("@@shop", r#"{"sessionid":"a"}"#, Some(" https://p:1 "))).unwrap();
    assert_eq!(plan.cookie_header, "sessionid=a");
    assert_eq!(plan.proxy_url.as_deref(), Some("https://p:1"));
    assert_eq!(plan.username, "shop");

    assert!(prepare_live_check(&cfg("shop", "{bad", None)).is_err());
    assert!(prepare_live_check(&cfg("shop", "", Some("ftp://x")))
        .err()
        .unwrap()
        .contains("http:// or https://"));
}

#[test]
fn empty_username_finishes_without_fetching() {
    let plan = prepare_live_check(&cfg("@", "", None)).unwrap();
    assert!(matches!(first_live_check_step(&plan, true), LiveCheckStep::Finished(None)));
    let named = prepare_live_check(&cfg("a", "", None)).unwrap();
    assert!(matches!(first_live_check_step(&named, true), LiveCheckStep::TryWafUserRoomApi));
    assert!(matches!(first_live_check_step(&named, false), LiveCheckStep::TryUserRoomApi));
}

#[test]
fn waf_errors_fall_back_to_signed_api_then_live_page() {
    let step = next_live_check_step(LiveCheckStep::TryWafUserRoomApi, Err("blocked".to_string()));
    let step = match step {
        LiveCheckStep::TrySignedWafUserRoomApi { api_error } => {
            assert_eq!(api_error, "blocked");
            next_live_check_step(
                LiveCheckStep::TrySignedWafUserRoomApi { api_error },
                Err("sign failed".to_string()),
            )
        }
        other => panic!("unexpected step {other:?}"),
    };
    match &step {
        LiveCheckStep::TryLiveHtml { api_error } => {
            assert_eq!(api_error, "blocked; signed fallback: sign failed")
        }
        other => panic!("unexpected step {other:?}"),
    }
    match next_live_check_step(step, Err("no room".to_string())) {
        LiveCheckStep::Failed(e) => assert_eq!(e, "no room"),
        other => panic!("unexpected step {other:?}"),
    }
}

#[test]
fn an_answer_finishes_the_check() {
    let status = LiveStatus { room_id: "1".to_string(), stream_url: None, viewer_count: Some(3) };
    match next_live_check_step(LiveCheckStep::TryUserRoomApi, Ok(Some(status.clone()))) {
        LiveCheckStep::Finished(Some(s)) => assert_eq!(s, status),
        other => panic!("unexpected step {other:?}"),
    }
    match next_live_check_step(LiveCheckStep::TryUserRoomApi, Err("e".to_string())) {
        LiveCheckStep::TryLiveHtml { api_error } => assert_eq!(api_error, "e"),
        other => panic!("unexpected step {other:?}"),
    }
    assert!(matches!(
        next_live_check_step(LiveCheckStep::Finished(None), Err("x".to_string())),
        LiveCheckStep::Finished(None)
    ));
}

#[test]
fn signed_paths_are_fetched_under_tiktok() {
    assert_eq!(
        signed_api_url("/api-live/user/room/?uniqueId=a"),
        "https://www.tiktok.com/api-live/user/room/?uniqueId=a"
    );
    assert_eq!(signed_api_url("https://x.test/p"), "https://x.test/p");
}
