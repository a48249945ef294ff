use tikclip::check_live::{
    check_alive_is_live, extract_room_id_from_live_html, fallback_room_payload,
    live_html_missing_room_id_error, live_status_from_live_html_checks,
    live_status_from_user_room_api_text, merge_live_status_from_room_payload,
    pick_stream_url_from_room_payload, signed_path_from_tikrec_response, webcast_region_hint,
};
use tikclip::json::{parse_json, JsonValue};

fn room_json(text: &str) -> JsonValue {
    let chars: Vec<char> = text.chars().collect();
    parse_json(&chars).unwrap()
}

#[test]
fn extract_room_id_from_live_html_reads_known_patterns() {
    assert_eq!(
        extract_room_id_from_live_html(r#"...\"room_id\":\"7312345\"..."#),
        Some("7312345".to_string())
    );
    assert_eq!(
        extract_room_id_from_live_html(r#"...room/731234567890..."#),
        Some("731234567890".to_string())
    );
}

#[test]
fn extract_room_id_from_live_html_supports_whitespace_json_variants() {
    assert_eq!(
        extract_room_id_from_live_html(r#"..."roomId"   :   "7412345"..."#),
        Some("7412345".to_string())
    );
    assert_eq!(
        extract_room_id_from_live_html("...\"room_id\"\n:\t\"7512345\"..."),
        Some("7512345".to_string())
    );
    assert_eq!(
        extract_room_id_from_live_html(r#"..."room_id"   :   7612345..."#),
        Some("7612345".to_string())
    );
}

#[test]
fn extract_room_id_from_live_html_finds_nothing_without_a_pattern() {
    assert_eq!(extract_room_id_from_live_html("<html>no room here</html>"), None);
}

#[test]
fn webcast_region_hint_maps_tiktok_target_idc() {
    assert_eq!(
        webcast_region_hint(Some("sessionid=abc; tt-target-idc=useast2a")),
        "US"
    );
    assert_eq!(
        webcast_region_hint(Some("sessionid=abc; tt-target-idc=alisg1")),
        "SG"
    );
    assert_eq!(
        webcast_region_hint(Some("sessionid=abc; tt-target-idc=eu-central")),
        "EU"
    );
    assert_eq!(webcast_region_hint(Some("sessionid=abc")), "CH");
}

#[test]
fn pick_stream_url_from_room_payload_prefers_flv_quality_order() {
    let room = room_json(
        r#"{
            "stream_url": {
                "flv_pull_url": {
                    "SD1": "https://example.com/sd.flv",
                    "FULL_HD1": "https://example.com/fhd.flv"
                },
                "hls_pull_url_map": {
                    "HD1": "https://example.com/hd.m3u8"
                }
            }
        }"#,
    );

    assert_eq!(
        pick_stream_url_from_room_payload(&room).as_deref(),
        Some("https://example.com/fhd.flv")
    );
}

#[test]
fn pick_stream_url_from_room_payload_falls_back_to_hls_and_raw_strings() {
    let with_hls = room_json(
        r#"{
            "stream_url": {
                "hls_pull_url_map": {
                    "HD1": "https://example.com/hd.m3u8"
                }
            }
        }"#,
    );
    assert_eq!(
        pick_stream_url_from_room_payload(&with_hls).as_deref(),
        Some("https://example.com/hd.m3u8")
    );

    let with_raw = room_json(
        r#"{
            "stream_url": {
                "hls_pull_url": "https://example.com/raw.m3u8"
            }
        }"#,
    );
    assert_eq!(
        pick_stream_url_from_room_payload(&with_raw).as_deref(),
        Some("https://example.com/raw.m3u8")
    );
}

#[test]
fn pick_stream_url_from_room_payload_falls_back_to_first_unknown_quality_value() {
    let room = room_json(
        r#"{
            "stream_url": {
                "flv_pull_url": {
                    "CUSTOM_QUALITY": "https://example.com/custom.flv"
                }
            }
        }"#,
    );

    assert_eq!(
        pick_stream_url_from_room_payload(&room).as_deref(),
        Some("https://example.com/custom.flv")
    );
}

#[test]
fn live_status_from_user_room_api_text_reads_room_status_and_sdk_stream_data() {
    let stream_data = r#"{"common":{"user_count":98},"data":{"hd":{"main":{"flv":"https://example.com/hd.flv"}},"origin":{"main":{"flv":"https://example.com/origin.flv"}}}}"#;
    let escaped = stream_data.replace('"', "\\\"");
    let body = format!(
        r#"{{
            "data": {{
                "user": {{
                    "roomId": "7632683733313325845",
                    "status": 2
                }},
                "liveRoom": {{
                    "status": 2,
                    "liveRoomStats": {{
                        "userCount": 174
                    }},
                    "streamData": {{
                        "pull_data": {{
                            "options": {{
                                "qualities": [
                                    {{ "sdk_key": "origin", "level": 10 }},
                                    {{ "sdk_key": "hd", "level": 3 }}
                                ]
                            }},
                            "stream_data": "{}"
                        }}
                    }}
                }}
            }},
            "message": "",
            "statusCode": 0
        }}"#,
        escaped
    );

    let live = live_status_from_user_room_api_text(&body).unwrap().unwrap();

    assert_eq!(live.room_id, "7632683733313325845");
    assert_eq!(
        live.stream_url.as_deref(),
        Some("https://example.com/origin.flv")
    );
    assert_eq!(live.viewer_count, Some(174));
}

#[test]
fn live_status_from_user_room_api_text_returns_none_for_explicit_offline_status() {
    let body = r#"{
        "data": {
            "user": {
                "roomId": "7632683733313325845",
                "status": 4
            },
            "liveRoom": {
                "status": 4
            }
        },
        "message": "",
        "statusCode": 0
    }"#;

    let live = live_status_from_user_room_api_text(body).unwrap();

    assert_eq!(live, None);
}

#[test]
fn live_status_from_user_room_api_text_reports_missing_user_as_offline() {
    let live = live_status_from_user_room_api_text(r#"{"message":"user_not_found"}"#).unwrap();
    assert_eq!(live, None);
}

#[test]
fn live_status_from_user_room_api_text_rejects_missing_data_and_status() {
    assert_eq!(
        live_status_from_user_room_api_text(r#"{"message":""}"#).unwrap_err(),
        "api-live user room response missing data"
    );
    assert_eq!(
        live_status_from_user_room_api_text(r#"{"data":{"user":{}}}"#).unwrap_err(),
        "api-live user room response did not contain a live status"
    );
    assert!(live_status_from_user_room_api_text("not json")
        .unwrap_err()
        .starts_with("api-live user room JSON parse failed: "));
}

#[test]
fn signed_path_from_tikrec_response_reads_signed_path() {
    let signed_path = signed_path_from_tikrec_response(
        r#"{"signed_path":"/api-live/user/room/?uniqueId=shop_abc&X-Bogus=abc"}"#,
    )
    .unwrap();

    assert_eq!(
        signed_path,
        "/api-live/user/room/?uniqueId=shop_abc&X-Bogus=abc"
    );
}

#[test]
fn signed_path_from_tikrec_response_rejects_blank_path() {
    assert_eq!(
        signed_path_from_tikrec_response(r#"{"signed_path":"   "}"#).unwrap_err(),
        "signed API response missing signed_path"
    );
}

#[test]
fn pick_stream_url_from_room_payload_skips_empty_unknown_quality_values() {
    let room = room_json(
        r#"{
            "stream_url": {
                "flv_pull_url": {
                    "FIRST_UNKNOWN": "",
                    "SECOND_UNKNOWN": "https://example.com/fallback.flv"
                }
            }
        }"#,
    );

    assert_eq!(
        pick_stream_url_from_room_payload(&room).as_deref(),
        Some("https://example.com/fallback.flv")
    );
}

#[test]
fn merge_live_status_from_room_payload_reads_room_info_shape() {
    let room = room_json(
        r#"{
            "status": 2,
            "id_str": "7312345",
            "title": "Live now",
            "owner_count": 321,
            "stream_url": {
                "flv_pull_url": {
                    "FULL_HD1": "https://example.com/live.flv"
                }
            }
        }"#,
    );

    let live = merge_live_status_from_room_payload(&room);

    assert!(live.is_live);
    assert_eq!(live.room_id.as_deref(), Some("7312345"));
    assert_eq!(live.title.as_deref(), Some("Live now"));
    assert_eq!(live.viewer_count, Some(321));
    assert_eq!(
        live.stream_url.as_deref(),
        Some("https://example.com/live.flv")
    );
}

#[test]
fn merge_live_status_from_room_payload_uses_check_alive_hint_when_status_missing() {
    let room = room_json(
        r#"{
            "alive": 1,
            "room_id": "998877",
            "stream_url": "https://example.com/live.flv"
        }"#,
    );

    let live = merge_live_status_from_room_payload(&room);

    assert!(live.is_live);
    assert_eq!(live.room_id.as_deref(), Some("998877"));
    assert_eq!(
        live.stream_url.as_deref(),
        Some("https://example.com/live.flv")
    );
}

#[test]
fn merge_live_status_from_room_payload_marks_not_live_when_hints_are_offline() {
    let room = room_json(
        r#"{
            "LiveRoomInfo": {
                "status": 4
            },
            "room_id": "112233"
        }"#,
    );

    let live = merge_live_status_from_room_payload(&room);

    assert!(!live.is_live);
    assert_eq!(live.room_id.as_deref(), Some("112233"));
    assert_eq!(live.stream_url, None);
    assert_eq!(live.viewer_count, None);
    assert_eq!(live.title, None);
}

#[test]
fn merge_live_status_from_room_payload_preserves_leading_zero_room_id_string() {
    let room = room_json(
        r#"{
            "status": 2,
            "room_id": "0012345",
            "stream_url": {
                "flv_pull_url": {
                    "FULL_HD1": "https://example.com/live.flv"
                }
            }
        }"#,
    );

    let live = merge_live_status_from_room_payload(&room);

    assert_eq!(live.room_id.as_deref(), Some("0012345"));
}

#[test]
fn check_alive_reads_alive_flag() {
    assert!(check_alive_is_live(r#"{"data":[{"alive":1,"room_id":1}]}"#));
    assert!(!check_alive_is_live(r#"{"data":[{"alive":0}]}"#));
    assert!(!check_alive_is_live(r#"{"data":[]}"#));
    assert!(!check_alive_is_live("not json"));
}

#[test]
fn fallback_payload_carries_room_and_liveness() {
    let payload = fallback_room_payload("42", true);
    let live = merge_live_status_from_room_payload(&payload);
    assert!(live.is_live);
    assert_eq!(live.room_id.as_deref(), Some("42"));

    let offline = merge_live_status_from_room_payload(&fallback_room_payload("42", false));
    assert!(!offline.is_live);
}

#[test]
fn live_html_checks_return_none_when_offline() {
    assert_eq!(live_status_from_live_html_checks("42", None, None), None);
}

#[test]
fn live_html_checks_use_check_alive_when_room_info_is_missing() {
    let live = live_status_from_live_html_checks("42", None, Some(r#"{"data":[{"alive":1}]}"#)).unwrap();
    assert_eq!(live.room_id, "42");
    assert_eq!(live.stream_url, None);
}

#[test]
fn live_html_missing_room_id_error_mentions_api_error() {
    let plain = live_html_missing_room_id_error(None);
    let with_api = live_html_missing_room_id_error(Some("boom"));
    assert_eq!(plain, "could not resolve TikTok room id from live HTML");
    assert_eq!(
        with_api,
        "could not resolve TikTok room id from api-live or live HTML; api-live error: boom"
    );
}

#[test]
fn room_id_search_skips_markers_with_too_few_digits() {
    assert_eq!(
        extract_room_id_from_live_html("room_id=12; roomId=7312345").as_deref(),
        Some("7312345")
    );
    assert_eq!(extract_room_id_from_live_html("room/12345"), None);
    assert_eq!(extract_room_id_from_live_html("room/1234567890x").as_deref(), Some("1234567890"));
}
