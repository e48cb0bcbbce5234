//! Monitor control over DDC/CI: brightness, contrast and input source.

pub mod control;
pub mod device;
pub mod inputs;
pub mod message;
pub mod monitor;
pub mod monitor_laws;
pub mod monitor_read;
pub mod session;
pub mod text;
pub mod transfer;
pub mod vcp;
pub mod worker;
pub mod worker_laws;
