//! Synchronized playback start for one media sender and many receivers, and
//! the timetable types of a scheduled media player.
//!
//! The sender watches its own RTCP sender reports, announces a start instant a
//! few seconds ahead over a line-based control channel, and each receiver holds
//! its pipeline paused until that instant on the shared NTP time scale.
//!
//! - `time`: NTP timestamps and the wall clock.
//! - `sr`: decoding of RTCP sender reports.
//! - `protocol`: control messages and the framing of their records.
//! - `server`: the sender's client registry and broadcast passes.
//! - `client`: the receiver's connection retry policy.
//! - `scheduler`: the sender's start announcements and encoder choice.
//! - `receiver`: the receiver's paused-until-start state machine and report watch.
//! - `media`, `timing`, `text`: tasks, weekdays and their timetable text.
//! - `player`: the program and arguments a task runs.
//! - `log`: records for the installed `log` backend.

pub mod client;
pub mod detect;
pub mod log;
pub mod media;
pub mod player;
pub mod protocol;
pub mod receiver;
pub mod scheduler;
pub mod server;
pub mod sr;
pub mod text;
pub mod time;
pub mod timing;
