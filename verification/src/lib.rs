//! Verified core of Syntra: the peer protocol, clipboard history, plugin
//! protocol and the decisions behind the dashboard.

pub mod api;
pub mod finding;
pub mod history;
pub mod lan_mouse_adapter_api;
pub mod lan_mouse_gtk;
pub mod lan_mouse_proto;
pub mod paths;
pub mod platform;
pub mod plugin_api;
pub mod proto;
pub mod table;
pub mod text;
pub mod ui;
pub mod wire;
pub mod wording;
