//! The live-check entry points used by the runtime: cookie header, proxy,
//! room id in HTML, and the room-info and check-alive response parsers.
use vstd::prelude::*;
use crate::check_live::{
    merge_live_status_from_room_payload, opt_status_view, or_else, pick_stream_url_from_room_payload,
    room_id_of, room_is_live, room_stream_url, room_viewer_count, status_result_view, LiveStatus,
};
use crate::json::{as_array, get, jindex, jitems, json_parse, json_parse_error, jview, lemma_jview_items, parse_json, JsonValue, JsonView};
use crate::session::{opt_str_seq, opt_seq};
use crate::text::{str_chars, string_of};

verus! {

pub fn normalize_cookie_header(raw: &str) -> (r: Result<String, String>)
    ensures
        crate::http_transport::result_view(r) == crate::http_transport::normalize_cookie_header_spec(raw@),
{
    crate::http_transport::normalize_cookie_header(raw)
}

pub fn proxy_url_for_reqwest(raw: Option<&str>) -> (r: Result<Option<String>, String>)
    ensures
        crate::http_transport::opt_result_view(r) == crate::http_transport::proxy_url_spec(opt_str_seq(raw)),
{
    crate::http_transport::proxy_url_for_reqwest(raw)
}

pub fn extract_room_id_from_html(html: &str) -> (r: Option<String>)
    ensures
        opt_seq(r) == crate::check_live::room_id_from_html_spec(html@),
{
    crate::check_live::extract_room_id_from_live_html(html)
}

fn index<'a>(v: &'a JsonValue, key: &str, null: &'a JsonValue) -> (r: &'a JsonValue)
    requires
        jview(*null) is Null,
    ensures
        jview(*r) == jindex(jview(*v), key@),
{
    match get(v, key) {
        Some(x) => x,
        None => null,
    }
}

/// What `parse_room_info_live_status` returns for a room-info body.
pub open spec fn room_info_status_spec(body: Seq<char>) -> Result<Option<(Seq<char>, Option<Seq<char>>, Option<int>)>, Seq<char>> {
    match json_parse(body) {
        None => Err(json_parse_error(body)),
        Some(v) => {
            let room = jindex(jindex(v, "data"@), "room"@);
            if !room_is_live(room) {
                Ok(None)
            } else {
                match room_stream_url(room) {
                    None => Err("missing stream_url"@),
                    Some(u) => Ok(
                        Some(
                            (
                                match room_id_of(room) {
                                    Some(r) => r,
                                    None => Seq::empty(),
                                },
                                Some(u),
                                room_viewer_count(room),
                            ),
                        ),
                    ),
                }
            }
        },
    }
}

/// The live status in a `room/info` body; `None` when the room is not live.
pub fn parse_room_info_live_status(body: &str) -> (r: Result<Option<LiveStatus>, String>)
    ensures
        status_result_view(r) == room_info_status_spec(body@),
{
    let value = match parse_json(str_chars(body).as_slice()) {
        Ok(v) => v,
        Err(e) => return Err(e),
    };
    let null = JsonValue::Null;
    let data = index(&value, "data", &null);
    let room = index(data, "room", &null);
    let merged = merge_live_status_from_room_payload(room);
    if !merged.is_live {
        return Ok(None);
    }
    let room_id = match merged.room_id {
        Some(r) => r,
        None => String::new(),
    };
    let stream_url = match pick_stream_url_from_room_payload(room) {
        Some(u) => u,
        None => return Err(string_of("missing stream_url")),
    };
    Ok(Some(LiveStatus { room_id, stream_url: Some(stream_url), viewer_count: merged.viewer_count }))
}

/// The row a check-alive body describes: the first element of a `data` array, else `data`.
pub open spec fn check_alive_row(v: JsonView) -> JsonView {
    let data = jindex(v, "data"@);
    match jitems(data) {
        Some(rows) => if rows.len() > 0 {
            rows[0]
        } else {
            data
        },
        None => data,
    }
}

/// What `parse_check_alive_live_status` returns.
pub open spec fn check_alive_status_spec(body: Seq<char>) -> Result<Option<(Seq<char>, Option<Seq<char>>, Option<int>)>, Seq<char>> {
    match json_parse(body) {
        None => Err(json_parse_error(body)),
        Some(v) => {
            let row = check_alive_row(v);
            if !room_is_live(row) {
                Ok(None)
            } else {
                Ok(
                    Some(
                        (
                            match room_id_of(row) {
                                Some(r) => r,
                                None => Seq::empty(),
                            },
                            room_stream_url(row),
                            None,
                        ),
                    ),
                )
            }
        },
    }
}

/// The live status in a `check_alive` body; `None` when the room is not live.
pub fn parse_check_alive_live_status(body: &str) -> (r: Result<Option<LiveStatus>, String>)
    ensures
        status_result_view(r) == check_alive_status_spec(body@),
{
    let value = match parse_json(str_chars(body).as_slice()) {
        Ok(v) => v,
        Err(e) => return Err(e),
    };
    let null = JsonValue::Null;
    let data = index(&value, "data", &null);
    let row: &JsonValue = match as_array(data) {
        Some(rows) => {
            proof {
                lemma_jview_items(rows@);
            }
            if rows.len() > 0 {
                &rows[0]
            } else {
                data
            }
        },
        None => data,
    };
    let merged = merge_live_status_from_room_payload(row);
    if !merged.is_live {
        return Ok(None);
    }
    Ok(Some(LiveStatus {
        room_id: match merged.room_id {
            Some(r) => r,
            None => String::new(),
        },
        stream_url: merged.stream_url,
        viewer_count: None,
    }))
}

} // verus!
