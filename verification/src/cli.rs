use vstd::prelude::*;
use vstd::string::StringExecFns;
use crate::display::Color;
use crate::display::Line;
use crate::display::is_labelled_line;
use crate::display::is_plain_line;
use crate::display::segment_is;
use crate::display::labelled_line;
use crate::display::single_line;

verus! {

/// The command line: an optional subcommand.
pub struct Cli {
    pub command: Option<Commands>,
}

/// The subcommands.
pub enum Commands {
    /// Run (or resume) the agent in the named session ("default" unless
    /// given).
    Run { session: String },
    /// List the saved sessions.
    List,
}

/// The session that `run` uses when none is named.
pub const DEFAULT_SESSION: &'static str = "default";

/// The line that announces a session being started.
pub fn starting_line(session: &str) -> (l: Line)
    ensures
        is_labelled_line(l, "Starting Citadel session:"@, Color::Green, true, session@, Some(Color::Cyan)),
{
    labelled_line("Starting Citadel session:", Color::Green, true, String::from_str(session), Some(Color::Cyan))
}

/// The lines that list saved sessions: a notice when there are none, else
/// a header and one "  - <id>" line per session, in order.
pub fn session_listing(sessions: &Vec<String>) -> (r: Vec<Line>)
    ensures
        sessions@.len() == 0 ==> r@.len() == 1 && is_plain_line(r@[0], "No saved sessions found."@),
        sessions@.len() > 0 ==> {
            &&& r@.len() == sessions@.len() + 1
            &&& r@[0].ends_line && r@[0].segments@.len() == 1
            &&& segment_is(r@[0].segments@[0], "Saved Sessions:"@, Some(Color::Yellow), true)
            &&& forall|i: int| 0 <= i < sessions@.len() ==> is_plain_line(#[trigger] r@[i + 1], "  - "@ + sessions@[i]@)
        },
{
    let mut r: Vec<Line> = Vec::new();
    if sessions.len() == 0 {
        r.push(single_line(String::from_str("No saved sessions found."), None, false, true));
        return r;
    }
    r.push(single_line(String::from_str("Saved Sessions:"), Some(Color::Yellow), true, true));
    let mut i: usize = 0;
    while i < sessions.len()
        invariant
            i <= sessions@.len(),
            r@.len() == i + 1,
            r@[0].ends_line && r@[0].segments@.len() == 1,
            segment_is(r@[0].segments@[0], "Saved Sessions:"@, Some(Color::Yellow), true),
            forall|k: int| 0 <= k < i ==> is_plain_line(#[trigger] r@[k + 1], "  - "@ + sessions@[k]@),
        decreases sessions.len() - i,
    {
        let mut t = String::from_str("  - ");
        t.append(sessions[i].as_str());
        r.push(single_line(t, None, false, true));
        i = i + 1;
    }
    r
}

/// The line shown when no subcommand is given.
pub fn usage_hint() -> (l: Line)
    ensures
        is_plain_line(l, "Use --help for usage instructions."@),
{
    single_line(String::from_str("Use --help for usage instructions."), None, false, true)
}

} // verus!
