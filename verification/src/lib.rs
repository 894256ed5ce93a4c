//! Core of a small stopwatch / time-tracking widget.
//!
//! The library holds the pause/resume state machine with its append-only
//! session log, and the pure policy functions that turn elapsed seconds into
//! a display string and a highlight color. The windowing layer, configuration
//! loading and session-log persistence are collaborators outside the library:
//! they feed the core plain values (the current wall-clock second, threshold
//! settings) and render or store what it returns.

pub mod color;
pub mod format;
pub mod timer;

pub use color::Color;
pub use color::WarnSettings;
pub use color::highlight_col;
pub use color::highlight_color;
pub use format::format_elapsed;
pub use format::format_text;
pub use timer::Message;
pub use timer::Session;
pub use timer::State;
pub use timer::serialize_sessions;
pub use timer::tick_interval_ms;
