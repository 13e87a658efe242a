//! Dialogue dispatch: a request queue with retry bookkeeping, a rate limiter,
//! request validation and message assembly for a chat-completion provider,
//! classification of provider replies, and a telemetry log with a line format.
//!
//! Durations are whole milliseconds throughout.
pub mod broker;
pub mod decimal;
pub mod economy;
pub mod errors;
pub mod events;
pub mod queue;
pub mod scan;
pub mod status;
pub mod telemetry;
pub mod telemetry_line;
pub mod text;
pub mod types;
