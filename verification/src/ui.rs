//! The presentation layer: the single snapshot that the dashboard renders, and
//! what it decides on the way to and from the daemon.
//!
//! A dashboard is a client. It renders snapshots and sends typed requests;
//! whatever it appears to decide of the service is the daemon's decision,
//! echoed back.
pub mod models;
pub mod laws;
pub mod lifecycle;
pub mod acting;
pub mod appearance;
pub mod avatar;
pub mod keeping;
pub mod records;
pub mod reducing;
pub mod settings;
pub mod diagnostics;
pub mod diagnostic_socket;
pub mod labels;
pub mod projection;
pub mod showing;
pub mod transfers;
pub mod history_view;
pub mod manual;
pub mod manual_actions;
pub mod choosing;
pub mod dashboard;
pub mod callbacks;
pub mod updates;
pub mod offers;
pub mod preferences;
pub mod update_card;
pub mod pump;
pub mod device_identity;
pub mod file_drop;
