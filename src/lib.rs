//! Record keeping for a game: players, weapons, matches and leaderboard
//! entries, each kept in its own table under a per-table id counter, with
//! weapon and match snapshots embedded in player records.

pub mod types;
pub mod table;
pub mod text;
pub mod validate;
pub mod ranking;
pub mod store;
pub mod laws;
