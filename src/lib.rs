//! Time-synchronised one-time-password rotation: window arithmetic, grouping
//! of credentials by rotation period, the watch-mode refresh decisions and
//! the one-shot lookup.
pub mod clock;
pub mod grouping;
pub mod lookup;
pub mod registry;
pub mod schedule;
pub mod text;
pub mod window;
