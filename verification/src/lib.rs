//! Session and score tracking for an aim trainer.
//!
//! The library follows a running game from tick to tick (`monitor`), reads
//! scores from the game's log files (`scanner`) and the scenario from its save
//! file (`game`), keeps the local high-score ledger (`local_scores`), takes in
//! the online scores of a user (`online`, `sync`), decides which scenarios are
//! tracked (`admission`, `scenario_cache`) and says what is shown of a session
//! (`presence`). It reads no file and sends nothing itself: its callers hand
//! it what they read and carry out what it asks for.
//!
//! Scores are held as whole tenths of a point (`score::Score`), so a score of
//! 123.5 points is the integer 1235.

pub mod admission;
pub mod game;
pub mod local_scores;
pub mod monitor;
pub mod online;
pub mod presence;
pub mod scanner;
pub mod scenario_cache;
pub mod score;
pub mod settings;
pub mod sync;
pub mod table;
pub mod text;
