//! The decisions of a Bluetooth Low Energy inspection tool: which advertisement
//! events are captured, which are grouped in a report, and which filter
//! configurations are accepted.

pub mod capture;
pub mod config;
pub mod config_laws;
pub mod event;
pub mod event_laws;
pub mod filter;
pub mod laws;
pub mod monitor;
pub mod report;
pub mod report_laws;
pub mod save;
pub mod timestamp;
pub mod wakeup;
