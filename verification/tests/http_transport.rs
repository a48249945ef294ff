use tikclip::http_transport::{
    cookie_key_summary, default_tiktok_headers, ensure_success_status, normalize_cookie_header,
    proxy_url_for_reqwest,
};

#[test]
fn normalize_cookie_header_adds_sessionid_from_sessionid_ss_when_missing() {
    let cookies =
        normalize_cookie_header(r#"{"sessionid_ss":"abc","tt-target-idc":"useast2a"}"#).unwrap();

    assert_eq!(
        cookies,
        "sessionid_ss=abc; tt-target-idc=useast2a; sessionid=abc"
    );
}

#[test]
fn normalize_cookie_header_keeps_existing_sessionid() {
    let cookies =
        normalize_cookie_header(r#"{"sessionid":"root","sessionid_ss":"leaf"}"#).unwrap();

    assert_eq!(cookies, "sessionid=root; sessionid_ss=leaf");
}

#[test]
fn normalize_cookie_header_treats_empty_sessionid_as_missing_without_duplicates() {
    let cookies = normalize_cookie_header(
        r#"{"sessionid":"","sessionid_ss":"abc","tt-target-idc":"useast2a"}"#,
    )
    .unwrap();

    assert_eq!(
        cookies,
        "sessionid_ss=abc; tt-target-idc=useast2a; sessionid=abc"
    );
}

#[test]
fn normalize_cookie_header_needs_a_json_object_unless_blank() {
    assert_eq!(normalize_cookie_header("   ").unwrap(), "");
    assert_eq!(
        normalize_cookie_header("[1]").unwrap_err(),
        "cookies_json must be a JSON object"
    );
    assert_eq!(
        normalize_cookie_header(r#"{"a":1,"b":"x"}"#).unwrap(),
        "b=x"
    );
}

#[test]
fn http_transport_proxy_url_for_reqwest_rejects_non_http_schemes() {
    let err = proxy_url_for_reqwest(Some("socks5://127.0.0.1:9000")).unwrap_err();

    assert!(err.contains("http:// or https://"));
}

#[test]
fn proxy_url_for_reqwest_accepts_http_and_ignores_blank() {
    assert_eq!(proxy_url_for_reqwest(None).unwrap(), None);
    assert_eq!(proxy_url_for_reqwest(Some("   ")).unwrap(), None);
    assert_eq!(
        proxy_url_for_reqwest(Some(" http://127.0.0.1:8080 ")).unwrap().as_deref(),
        Some("http://127.0.0.1:8080")
    );
}

#[test]
fn ensure_success_status_returns_typed_error_with_status_url_and_text() {
    let err =
        ensure_success_status(429, "https://www.tiktok.com/api/x", "rate limited").unwrap_err();

    assert_eq!(err.status_code, 429);
    assert_eq!(err.url, "https://www.tiktok.com/api/x");
    assert_eq!(err.text, "rate limited");
    assert_eq!(err.to_string(), "HTTP 429 https://www.tiktok.com/api/x");
}

#[test]
fn ensure_success_status_accepts_2xx() {
    assert!(ensure_success_status(200, "u", "").is_ok());
    assert!(ensure_success_status(299, "u", "").is_ok());
    assert!(ensure_success_status(300, "u", "").is_err());
}

#[test]
fn cookie_key_summary_reports_only_sorted_keys() {
    let summary = cookie_key_summary(r#"{"tt-target-idc":"x","sessionid_ss":"abc"}"#).unwrap();

    assert_eq!(summary, "sessionid,sessionid_ss,tt-target-idc");
}

#[test]
fn cookie_key_summary_handles_empty_and_existing_sessionid() {
    assert_eq!(cookie_key_summary("  ").unwrap(), "no cookies");
    assert_eq!(cookie_key_summary("{}").unwrap(), "no cookies");
    assert_eq!(cookie_key_summary(r#"{"b":1,"sessionid":"s","a":"x"}"#).unwrap(), "a,b,sessionid");
    assert_eq!(cookie_key_summary(r#"{"sessionid":"","sessionid_ss":""}"#).unwrap(), "sessionid,sessionid_ss");
    assert_eq!(cookie_key_summary("[]").unwrap_err(), "cookies_json must be a JSON object");
    assert!(cookie_key_summary("{").is_err());
}

#[test]
fn default_tiktok_headers_match_expected_browser_navigation_shape() {
    let headers = default_tiktok_headers();
    let get = |name: &str| headers.iter().find(|(k, _)| *k == name).map(|(_, v)| *v);

    assert_eq!(
        get("accept"),
        Some(
            "text/html,application/xhtml+xml,application/xml;q=0.9,image/avif,image/webp,image/apng,application/json,text/plain,*/*;q=0.8"
        )
    );
    assert_eq!(get("origin"), Some("https://www.tiktok.com"));
    assert_eq!(get("referer"), Some("https://www.tiktok.com/"));
    assert_eq!(
        get("user-agent"),
        Some(
            "Mozilla/5.0 (Macintosh; Intel Mac OS X 10_15_7) AppleWebKit/537.36 (KHTML, like Gecko) Chrome/131.0.0.0 Safari/537.36"
        )
    );
    assert_eq!(get("accept-language"), Some("en-US,en;q=0.9"));
}
