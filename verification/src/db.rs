//! The shape of a logged chat line.

use vstd::prelude::*;

verus! {

/// One logged line of a channel.
#[derive(Debug, PartialEq, Eq)]
pub struct LogEntry {
    /// Seconds since the Unix epoch at which the line was logged.
    pub timestamp: i64,
    pub channel: String,
    pub nick: String,
    pub message: String,
}

/// Mathematical value of a `LogEntry`.
pub struct LogEntryView {
    pub timestamp: int,
    pub channel: Seq<char>,
    pub nick: Seq<char>,
    pub message: Seq<char>,
}

impl View for LogEntry {
    type V = LogEntryView;

    open spec fn view(&self) -> LogEntryView {
        LogEntryView {
            timestamp: self.timestamp as int,
            channel: self.channel@,
            nick: self.nick@,
            message: self.message@,
        }
    }
}

impl Clone for LogEntry {
    fn clone(&self) -> (r: Self)
        ensures
            r@ == self@,
    {
        LogEntry {
            timestamp: self.timestamp,
            channel: self.channel.clone(),
            nick: self.nick.clone(),
            message: self.message.clone(),
        }
    }
}

/// The entries of a vector, each by its mathematical value.
pub open spec fn entries_view(entries: Seq<LogEntry>) -> Seq<LogEntryView> {
    entries.map_values(|e: LogEntry| e@)
}

} // verus!
