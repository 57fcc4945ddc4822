//! The results server: takes punches from daemons and hands them to the event's
//! results software.
pub mod store;
pub mod mip;
pub mod roc;
pub mod activity;
pub mod http;
pub mod dashboard;
