//! Verified core of the LDR PLC desktop controller.

pub mod text;
pub mod codec;
pub mod address;
pub mod arrays;
pub mod config;
pub mod alarms;
pub mod status;
pub mod supervisor;
pub mod heartbeat;
pub mod subscriptions;
pub mod transfer;
pub mod records;
pub mod held;
