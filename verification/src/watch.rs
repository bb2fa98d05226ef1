//! Status line for watch-style commands.
//!
//! The watch loop itself clears the terminal, sleeps and waits for an
//! interrupt, which is the surrounding binary's work; the library renders
//! the line that tells the user a watch is active.

use vstd::prelude::*;

use crate::numfmt::{dec_str, u64_to_string};

verus! {

/// The status line for a watch polling every `secs` seconds.
pub open spec fn spec_watch_status_line(secs: nat) -> Seq<char> {
    "Watching (every "@ + dec_str(secs) + "s) - Press Ctrl+C to stop"@
}

/// Render the watch status line for a polling interval in seconds.
pub fn watch_status_line(interval_secs: u64) -> (s: String)
    ensures
        s@ == spec_watch_status_line(interval_secs as nat),
{
    let p: String = "Watching (every ".to_owned();
    let s = p.concat(u64_to_string(interval_secs).as_str()).concat(
        "s) - Press Ctrl+C to stop",
    );
    proof {
        assert(s@ =~= spec_watch_status_line(interval_secs as nat));
    }
    s
}

} // verus!
