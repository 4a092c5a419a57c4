//! Verified core of a Windows AirPlay sender: receiver profiles, route
//! selection, the persistent PCM ring and the immutable RTP timeline.
pub mod engine;
pub mod text;
pub mod airplay;
pub mod capture;
pub mod gui;
pub mod assets;
pub mod cli;
