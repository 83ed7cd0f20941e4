//! Activity tracking core: turns periodic foreground-application samples into
//! usage sessions and judges them against recurring schedules.

pub mod clock;
pub mod collectors;
pub mod encoding;
pub mod models;
pub mod scheduler;
pub mod sessionizer;
pub mod text;
pub mod time;
pub mod tracker;
