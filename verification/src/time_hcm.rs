//! Wall-clock timestamps in Asia/Ho_Chi_Minh (UTC+7, no daylight saving).
use vstd::prelude::*;

verus! {

/// SQL fragment for the same instant as `now_timestamp_hcm` (UTC `now` plus seven hours).
pub const SQL_NOW_HCM: &'static str = "datetime('now', '+7 hours')";

/// `chrono::Utc::now()` at UTC+7 formatted `%Y-%m-%d %H:%M:%S`.
/// It reads the clock, so nothing is claimed of the text it returns.
#[verifier::external_body]
pub fn now_timestamp_hcm() -> String {
    let offset = chrono::FixedOffset::east_opt(7 * 3600).unwrap_or(chrono::FixedOffset::east_opt(0).unwrap());
    chrono::Utc::now().with_timezone(&offset).format("%Y-%m-%d %H:%M:%S").to_string()
}

} // verus!
