//! The decisions of the game loop between its screens: where a briefing
//! leads, and which mission to load after a frame and whether the score of
//! the mission left behind is recorded.

use vstd::prelude::*;
use crate::text::str_eq;

verus! {

/// Missions whose briefing ends the game rather than leading into play.
pub open spec fn is_final(m: Seq<char>) -> bool {
    m == "win.msn"@ || m == "lose.msn"@
}

/// Whether dismissing the briefing of `mission` returns to the title screen
/// (the game is over) instead of starting play.
pub fn briefing_ends_game(mission: &str) -> (b: bool)
    ensures
        b == is_final(mission@),
{
    str_eq(mission, "win.msn") || str_eq(mission, "lose.msn")
}

/// A mission to load after a frame.
pub struct Reload {
    pub mission: String,
    /// Whether the score reached in the mission being left is recorded.
    pub record_previous: bool,
}

/// What to load after a frame of mission `current`: a mission asked for
/// directly (a restart after the player's death, or a jump) comes first,
/// and its score is recorded only when it is another mission; otherwise a
/// mission that an event loads, whose score is always recorded.
pub fn next_mission(current: &str, asked: Option<String>, from_events: Option<String>) -> (r: Option<
    Reload,
>)
    ensures
        match asked {
            Some(m) => r matches Some(x) && x.mission@ == m@ && x.record_previous == (m@
                != current@),
            None => match from_events {
                Some(m) => r matches Some(x) && x.mission@ == m@ && x.record_previous,
                None => r is None,
            },
        },
{
    match asked {
        Some(m) => {
            let same = str_eq(m.as_str(), current);
            Some(Reload { mission: m, record_previous: !same })
        },
        None => match from_events {
            Some(m) => Some(Reload { mission: m, record_previous: true }),
            None => None,
        },
    }
}

} // verus!
