//! Core logic for a low-memory e-paper dashboard: a wall clock built from a
//! monotonic counter plus a sync offset, a bounded streaming iCalendar event
//! parser, weather and todo decoding helpers, and the decision logic of the
//! periodic refresh, connectivity, and time-sync loops.

pub mod clock;
pub mod cycle;
pub mod errors;
pub mod ics;
pub mod ntp;
pub mod text;
pub mod todo;
pub mod tz;
pub mod ui;
pub mod weather;
pub mod wifi;
