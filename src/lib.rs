//! Turns the raw byte chunks of a polled serial link into validated
//! orientation telemetry records.
//!
//! - [`frame`] splits the byte stream into newline-terminated frames and keeps
//!   the trailing partial frame across polls.
//! - [`record`] decodes one frame's JSON text into a [`record::TelemetryRecord`].
//! - [`monitor`] owns both and applies the latest-wins policy once per poll.
//! - [`link`] holds the choices made before a session starts.
pub mod frame;
pub mod link;
pub mod record;
pub mod monitor;
