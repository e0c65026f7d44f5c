//! Audio capture and streaming transcription core: sample conversion and level
//! metering, the capture session state machine, the decisions of the
//! streaming transcription client, and the small formats around them.

pub mod connection;
pub mod level;
pub mod models;
pub mod recorder;
pub mod settings;
pub mod streaming;
pub mod transcript;
pub mod updater;
pub mod wav;
pub mod window;
