//! Scoreboards for the matches of an arena-shooter session log.
//!
//! A session log is plain text, one record per line. The parser recognises
//! the lines that start a match and the lines that report a kill; the
//! scoreboard folds the kills of one match into per-player statistics.
//!
//! - [`parser`] reads lines: [`LineParser`] one at a time, [`KillLog`] a
//!   whole log of them. What a line pattern matches is left to the `regex`
//!   crate, behind [`pattern`].
//! - [`scoreboard`] and [`score`] hold the statistics of a match and of a
//!   player, and record kills.
//! - [`session`] follows a log from match to match.
//! - [`report`] puts players and causes of death in the order of a report.
//! - [`history`] says what a scoreboard holds of the kills recorded on it.
//!
//! The library reads no file and prints nothing: it takes lines and hands
//! out values.

pub mod cause;
pub mod entry;
pub mod history;
pub mod parser;
pub mod pattern;
pub mod report;
pub mod score;
pub mod scoreboard;
pub mod session;
pub mod text;

pub use cause::CauseOfDeath;
pub use entry::{Error, KillEntry, LogEntry};
pub use parser::{KillLog, LineParser};
pub use score::PlayerScore;
pub use scoreboard::MatchScoreboard;
