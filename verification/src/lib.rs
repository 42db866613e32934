//! Keeps upcoming featured articles protected: a calendar-date model, the
//! protection-state reconciler that computes the single write needed to reach
//! the desired protection, and the decision logic for resolving the scheduled
//! title of a day. All network traffic stays outside this crate; the logic
//! here works on plain values handed in and returns plain values.

pub mod date;
pub mod text;
pub mod expiry;
pub mod protection;
pub mod resolve;
