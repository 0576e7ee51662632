//! Append-only message log. Entries are structured values; presentation
//! turns them into text.

use vstd::prelude::*;

verus! {

/// One log entry.
#[derive(Clone, Debug)]
pub enum LogEntry {
    /// A free-form message (e.g. the greeting).
    Message { text: String },
    /// `attacker` hit `target` for `amount` hit points.
    Attack { attacker: String, target: String, amount: i32 },
}

/// The ordered, append-only game log.
#[derive(Clone, Debug)]
pub struct GameLog {
    pub entries: Vec<LogEntry>,
}

} // verus!
