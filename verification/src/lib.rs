//! Verified core of a single-button internet radio.
pub mod audio;
pub mod button;
pub mod channels;
pub mod cli;
pub mod gui;
pub mod hls;
pub mod listen;
pub mod metrics;
pub mod mpegts;
pub mod radio;
pub mod reconnect;
pub mod stream;
pub mod system;
pub mod text;
pub mod tts;
pub mod updater;
pub mod version;
pub mod welcome;
