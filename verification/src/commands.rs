//! The records the app stores and the commands it answers: their shapes and
//! the checks and mappings the commands apply before and after the database.
use vstd::prelude::*;
use crate::recording::{join_path, path_join};
use crate::session::{
    current_node_spec, opt_seq, opt_str_seq, runtime_current_node_for_status, LiveRuntimeSessionSnapshot,
};
use crate::text::{dec_int, fmt_i64, append_chars, str_chars, string_from, string_of, trim, trim_str};

verus! {

/// A stored account.
#[derive(Debug, Clone, PartialEq, Eq)]
pub struct Account {
    pub id: i64,
    pub username: String,
    pub display_name: String,
    pub avatar_url: Option<String>,
    pub account_type: String,
    pub tiktok_uid: Option<String>,
    pub cookies_json: Option<String>,
    pub proxy_url: Option<String>,
    pub auto_record: bool,
    pub auto_record_schedule: Option<String>,
    pub priority: i32,
    pub is_live: bool,
    pub last_live_at: Option<String>,
    pub last_checked_at: Option<String>,
    pub notes: Option<String>,
    pub created_at: String,
    pub updated_at: String,
}

/// A stored recording.
#[derive(Debug, Clone, PartialEq, Eq)]
pub struct Recording {
    pub id: i64,
    pub account_id: i64,
    pub account_username: Option<String>,
    pub room_id: Option<String>,
    pub status: String,
    pub started_at: String,
    pub ended_at: Option<String>,
    pub duration_seconds: i64,
    pub file_path: Option<String>,
    pub file_size_bytes: i64,
    pub stream_url: Option<String>,
    pub bitrate: Option<String>,
    pub error_message: Option<String>,
    pub auto_process: bool,
    pub created_at: String,
}

/// A stored flow.
#[derive(Debug, Clone, PartialEq, Eq)]
pub struct Flow {
    pub id: i64,
    pub account_id: i64,
    pub name: String,
    pub enabled: bool,
    pub status: String,
    pub current_node: Option<String>,
    pub last_live_at: Option<String>,
    pub last_run_at: Option<String>,
    pub last_error: Option<String>,
    pub created_at: String,
    pub updated_at: String,
}

/// A stored node configuration of a flow.
#[derive(Debug, Clone, PartialEq, Eq)]
pub struct FlowNodeConfig {
    pub id: i64,
    pub flow_id: i64,
    pub node_key: String,
    pub config_json: String,
    pub updated_at: String,
}

/// A stored notification.
#[derive(Debug, Clone, PartialEq, Eq)]
pub struct Notification {
    pub id: i64,
    pub notification_type: String,
    pub title: String,
    pub message: String,
    pub account_id: Option<i64>,
    pub recording_id: Option<i64>,
    pub clip_id: Option<i64>,
    pub is_read: bool,
    pub created_at: String,
}

// ---------------------------------------------------------------------------
// Accounts
// ---------------------------------------------------------------------------
/// What creating an account is given.
#[derive(Debug, Clone, PartialEq, Eq)]
pub struct CreateAccountInput {
    pub username: String,
    pub display_name: String,
    pub account_type: String,
    pub cookies_json: Option<String>,
    pub proxy_url: Option<String>,
    pub auto_record: bool,
    pub priority: i32,
    pub notes: Option<String>,
}

/// A live flag reported for an account.
#[derive(Debug, Clone, Copy, PartialEq, Eq)]
pub struct LiveFlagRow {
    pub account_id: i64,
    pub is_live: bool,
}

/// The username an account is created with: the type must be `own` or
/// `monitored`, and the trimmed username must not be blank.
pub fn check_create_account(input: &CreateAccountInput) -> (r: Result<String, String>)
    ensures
        !(input.account_type@ == "own"@ || input.account_type@ == "monitored"@) ==> (match r {
            Err(e) => e@ == "type must be 'own' or 'monitored'"@,
            Ok(_) => false,
        }),
        (input.account_type@ == "own"@ || input.account_type@ == "monitored"@) && trim(input.username@).len() == 0
            ==> (match r {
            Err(e) => e@ == "username is required"@,
            Ok(_) => false,
        }),
        (input.account_type@ == "own"@ || input.account_type@ == "monitored"@) && trim(input.username@).len() > 0
            ==> (match r {
            Ok(u) => u@ == trim(input.username@),
            Err(_) => false,
        }),
{
    if !crate::text::str_eq(input.account_type.as_str(), "own") && !crate::text::str_eq(
        input.account_type.as_str(),
        "monitored",
    ) {
        return Err(string_of("type must be 'own' or 'monitored'"));
    }
    let u = trim_str(input.username.as_str());
    if u.len() == 0 {
        return Err(string_of("username is required"));
    }
    Ok(string_from(u.as_slice()))
}

/// The error for a row that an id did not find.
pub open spec fn not_found_error(what: Seq<char>, id: i64) -> Seq<char> {
    what + " id "@ + dec_int(id as int) + " not found"@
}

/// `{what} id {id} not found`.
pub fn not_found_message(what: &str, id: i64) -> (r: String)
    ensures
        r@ == not_found_error(what@, id),
{
    let mut v = str_chars(what);
    crate::text::append_str(&mut v, " id ");
    let d = fmt_i64(id);
    append_chars(&mut v, d.as_slice());
    crate::text::append_str(&mut v, " not found");
    string_from(v.as_slice())
}

// ---------------------------------------------------------------------------
// Notifications
// ---------------------------------------------------------------------------
/// What inserting a notification is given.
#[derive(Debug, Clone, PartialEq, Eq)]
pub struct InsertNotificationInput {
    pub notification_type: String,
    pub title: String,
    pub message: String,
    pub account_id: Option<i64>,
    pub recording_id: Option<i64>,
    pub clip_id: Option<i64>,
}

/// A notification as the list shows it.
#[derive(Debug, Clone, PartialEq, Eq)]
pub struct NotificationListItem {
    pub id: i64,
    pub kind: String,
    pub title: String,
    pub body: String,
    pub read: bool,
    pub created_at: String,
}

/// The trimmed type and title a notification is stored with; neither may be blank.
pub fn check_notification(input: &InsertNotificationInput) -> (r: Result<(String, String), String>)
    ensures
        trim(input.notification_type@).len() == 0 ==> (match r {
            Err(e) => e@ == "notification_type is required"@,
            Ok(_) => false,
        }),
        trim(input.notification_type@).len() > 0 && trim(input.title@).len() == 0 ==> (match r {
            Err(e) => e@ == "title is required"@,
            Ok(_) => false,
        }),
        trim(input.notification_type@).len() > 0 && trim(input.title@).len() > 0 ==> (match r {
            Ok((t, ti)) => t@ == trim(input.notification_type@) && ti@ == trim(input.title@),
            Err(_) => false,
        }),
{
    let t = trim_str(input.notification_type.as_str());
    if t.len() == 0 {
        return Err(string_of("notification_type is required"));
    }
    let ti = trim_str(input.title.as_str());
    if ti.len() == 0 {
        return Err(string_of("title is required"));
    }
    Ok((string_from(t.as_slice()), string_from(ti.as_slice())))
}

/// How many notifications a list shows: the limit asked for, within 1..=500.
pub fn notification_list_cap(limit: i64) -> (r: i64)
    ensures
        r == (if limit < 1 {
            1
        } else if limit > 500 {
            500
        } else {
            limit
        }),
{
    if limit < 1 {
        1
    } else if limit > 500 {
        500
    } else {
        limit
    }
}

/// A stored notification row as the list shows it: read when `is_read` is not 0.
pub fn notification_list_item(id: i64, kind: String, title: String, body: String, is_read: i64, created_at: String) -> (r: NotificationListItem)
    ensures
        r == (NotificationListItem { id, kind, title, body, read: is_read != 0, created_at }),
{
    NotificationListItem { id, kind, title, body, read: is_read != 0, created_at }
}

// ---------------------------------------------------------------------------
// App data paths
// ---------------------------------------------------------------------------
/// The storage root and the data, clips and records directories under it.
#[derive(Debug, Clone, PartialEq, Eq)]
pub struct AppDataPaths {
    pub storage_root: String,
    pub data_dir: String,
    pub clips_dir: String,
    pub records_dir: String,
}

pub fn app_data_paths(root: &str) -> (r: AppDataPaths)
    ensures
        r.storage_root@ == root@,
        r.data_dir@ == path_join(root@, "data"@),
        r.clips_dir@ == path_join(root@, "clips"@),
        r.records_dir@ == path_join(root@, "records"@),
{
    let rc = str_chars(root);
    let data = str_chars("data");
    let clips = str_chars("clips");
    let records = str_chars("records");
    AppDataPaths {
        storage_root: string_of(root),
        data_dir: string_from(join_path(rc.as_slice(), data.as_slice()).as_slice()),
        clips_dir: string_from(join_path(rc.as_slice(), clips.as_slice()).as_slice()),
        records_dir: string_from(join_path(rc.as_slice(), records.as_slice()).as_slice()),
    }
}

// ---------------------------------------------------------------------------
// Recordings
// ---------------------------------------------------------------------------
/// A recording update reported by an external recorder.
#[derive(Debug, Clone, PartialEq, Eq)]
pub struct SyncRecordingInput {
    pub external_recording_id: String,
    pub account_id: i64,
    pub status: String,
    pub duration_seconds: i64,
    pub file_size_bytes: i64,
    pub file_path: Option<String>,
    pub error_message: Option<String>,
}

/// A recording the runtime is running, as reported.
#[derive(Debug, Clone, PartialEq, Eq)]
pub struct ActiveRustRecordingStatus {
    pub recording_id: String,
    pub account_id: i64,
    pub username: String,
    pub status: String,
    pub duration_seconds: i64,
    pub file_size_bytes: i64,
    pub file_path: Option<String>,
    pub error_message: Option<String>,
}

/// An external recording id must not be blank.
pub fn check_external_recording_id(id: &str) -> (r: Result<(), String>)
    ensures
        r is Ok <==> trim(id@).len() > 0,
        r matches Err(e) ==> e@ == "external_recording_id is required"@,
{
    let t = trim_str(id);
    if t.len() == 0 {
        Err(string_of("external_recording_id is required"))
    } else {
        Ok(())
    }
}

/// The error for an account id nobody has.
pub fn unknown_account_message(account_id: i64) -> (r: String)
    ensures
        r@ == "unknown account_id "@ + dec_int(account_id as int),
{
    let mut v = str_chars("unknown account_id ");
    let d = fmt_i64(account_id);
    append_chars(&mut v, d.as_slice());
    string_from(v.as_slice())
}

// ---------------------------------------------------------------------------
// Clips, flows and the runtime
// ---------------------------------------------------------------------------
/// What generating a clip caption is given.
#[derive(Debug, Clone, PartialEq, Eq)]
pub struct GenerateClipCaptionInput {
    pub clip_id: i64,
    pub username: String,
    pub transcript_text: Option<String>,
    pub clip_title: Option<String>,
}

/// A generated clip caption.
#[derive(Debug, Clone, PartialEq, Eq)]
pub struct GenerateClipCaptionOutput {
    pub clip_id: i64,
    pub caption_text: String,
}

/// The answer to publishing a flow.
#[derive(Debug, Clone, Copy, PartialEq, Eq)]
pub struct PublishFlowResult {
    pub flow_id: i64,
    pub is_running: bool,
}

/// The answer to restarting a flow's run.
#[derive(Debug, Clone, Copy, PartialEq, Eq)]
pub struct RestartFlowRunResult {
    pub flow_id: i64,
    pub restarted: bool,
}

/// A flow as the flow list shows it.
#[derive(Debug, Clone, PartialEq, Eq)]
pub struct FlowListItem {
    pub id: i64,
    pub account_id: i64,
    pub account_username: String,
    pub name: String,
    pub enabled: bool,
    pub status: String,
    pub current_node: Option<String>,
    pub last_live_at: Option<String>,
    pub last_run_at: Option<String>,
    pub last_error: Option<String>,
    pub published_version: i64,
    pub draft_version: i64,
    pub recordings_count: i64,
    pub clips_count: i64,
    pub captions_count: i64,
    pub created_at: String,
    pub updated_at: String,
}

/// What creating a flow is given.
#[derive(Debug, Clone, PartialEq, Eq)]
pub struct CreateFlowInput {
    pub name: String,
    pub enabled: Option<bool>,
}

/// A pipeline hint for an account's flow.
#[derive(Debug, Clone, PartialEq, Eq)]
pub struct ApplyFlowRuntimeHintInput {
    pub account_id: i64,
    pub hint: String,
    pub clip_id: Option<i64>,
}

/// A flow's runtime as the app shows it.
#[derive(Debug, Clone, PartialEq, Eq)]
pub struct FlowRuntimeSnapshot {
    pub flow_id: i64,
    pub status: String,
    pub current_node: Option<String>,
    pub account_id: Option<i64>,
    pub username: String,
    pub last_live_at: Option<String>,
    pub last_error: Option<String>,
    pub active_flow_run_id: Option<i64>,
}

/// A session's runtime snapshot: the stored current node, else the node its
/// status belongs to.
pub fn flow_runtime_snapshot(
    session: LiveRuntimeSessionSnapshot,
    stored_current_node: Option<String>,
    account_id: Option<i64>,
    last_live_at: Option<String>,
    active_flow_run_id: Option<i64>,
) -> (r: FlowRuntimeSnapshot)
    ensures
        r.flow_id == session.flow_id,
        r.status@ == session.status@,
        opt_seq(r.current_node) == (match stored_current_node {
            Some(n) => Some(n@),
            None => current_node_spec(trim(session.status@)),
        }),
        r.account_id == account_id,
        r.username@ == session.username@,
        r.last_live_at == last_live_at,
        r.last_error == session.last_error,
        r.active_flow_run_id == active_flow_run_id,
{
    let current_node = match stored_current_node {
        Some(n) => Some(n),
        None => match runtime_current_node_for_status(session.status.as_str()) {
            Some(s) => Some(string_of(s)),
            None => None,
        },
    };
    FlowRuntimeSnapshot {
        flow_id: session.flow_id,
        status: session.status,
        current_node,
        account_id,
        username: session.username,
        last_live_at,
        last_error: session.last_error,
        active_flow_run_id,
    }
}

} // verus!
