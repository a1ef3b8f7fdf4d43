//! A small time tracker: a status document that says what runs and since
//! when, and a daily log of finished intervals, one tab-separated line each.
pub mod clock;
pub mod error;
pub mod log;
pub mod status;
pub mod control;
