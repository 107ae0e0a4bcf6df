//! What goes to a log.

use vstd::prelude::*;

verus! {

/// A log plugin, as far as it decides whether anything is written.
#[derive(Clone, Copy, Debug, PartialEq, Eq, Structural)]
pub struct LogPlugin {
    pub enable: bool,
}

/// One line for the log plugin, under the context it belongs to.
#[derive(Debug, PartialEq, Eq)]
pub struct LogLine {
    pub context_id: String,
    pub text: String,
}

impl View for LogLine {
    type V = (Seq<char>, Seq<char>);

    open spec fn view(&self) -> (Seq<char>, Seq<char>) {
        (self.context_id@, self.text@)
    }
}

/// Lines as pairs of context id and text.
pub open spec fn line_views(lines: Seq<LogLine>) -> Seq<(Seq<char>, Seq<char>)> {
    lines.map_values(|line: LogLine| line@)
}

} // verus!
