use vstd::prelude::*;

pub mod text;
pub mod normalize;
pub mod session;
pub mod json;
pub mod http_transport;
pub mod check_live;
pub mod client;
pub mod captions;
pub mod time_hcm;
pub mod recording;
pub mod paths;
pub mod manager;
pub mod live_check;
pub mod product_html;
pub mod product;
pub mod product_json;
pub mod sidecar;
pub mod storage;
pub mod logs;
pub mod account_binding;
pub mod flows;
pub mod worker;
pub mod commands;
pub mod dashboard;
pub mod runtime_events;

verus! {
}
