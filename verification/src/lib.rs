//! The logic of a terminal dashboard for user systemd timers: reading what
//! `systemctl` reports, assembling and rendering the timer list, and the
//! state machine of the list and detail views.

pub mod text;
pub mod table;
pub mod metadata;
pub mod systemd;
pub mod app;
pub mod input;
pub mod screen;
pub mod logging;
