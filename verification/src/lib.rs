//! Verified core of a small LAN file-drop server: the rules that decide where
//! uploads go, which requests are refused, how the activity history is written
//! and read back, and how device inventory reports are summarised.

pub mod text;
pub mod activity_log;
pub mod log_laws;
pub mod transfers;
pub mod report;
pub mod report_laws;
pub mod selection;
pub mod layout;
