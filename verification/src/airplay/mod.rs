//! Receiver profiles, discovery results and live-session decisions.
pub mod capabilities;
pub mod control;
pub mod device_profile;
pub mod discovery;
pub mod live;
pub mod pairing;
pub mod session;
pub mod targets;

pub use capabilities::{ReceiverCapabilities, StreamMode};
