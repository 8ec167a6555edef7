//! Player preferences and where they are kept.

use vstd::prelude::*;
use crate::parser::{join, join_path};

verus! {

/// The directory that holds the configuration, the saves and the scores:
/// `$XDG_CONFIG_HOME/terminal-orbit` where that variable is set, else
/// `$HOME/.config/terminal-orbit`, with `.` standing for an unset `HOME`.
pub open spec fn config_dir_spec(xdg_config_home: Option<Seq<char>>, home: Option<Seq<char>>) -> Seq<
    char,
> {
    let base = match xdg_config_home {
        Some(x) => x,
        None => join_path(
            match home {
                Some(h) => h,
                None => "."@,
            },
            ".config"@,
        ),
    };
    join_path(base, "terminal-orbit"@)
}

/// The configuration directory chosen from the values of `XDG_CONFIG_HOME`
/// and `HOME` (`None` where a variable is unset).
pub fn config_dir_from(xdg_config_home: Option<String>, home: Option<String>) -> (d: String)
    ensures
        d@ == config_dir_spec(
            match xdg_config_home {
                Some(x) => Some(x@),
                None => None,
            },
            match home {
                Some(h) => Some(h@),
                None => None,
            },
        ),
{
    let base = match xdg_config_home {
        Some(x) => x,
        None => {
            let h = match home {
                Some(h) => h,
                None => String::from_str("."),
            };
            join(h.as_str(), ".config")
        },
    };
    join(base.as_str(), "terminal-orbit")
}

pub struct Prefs {
    pub player_name: String,
    pub gravity: bool,
    pub dense_stars: bool,
    /// `true` turns damage off.
    pub vulnerable: bool,
}

impl Default for Prefs {
    fn default() -> (p: Self)
        ensures
            p.player_name@ == "Ace"@,
            !p.gravity,
            !p.dense_stars,
            !p.vulnerable,
    {
        Prefs {
            player_name: String::from_str("Ace"),
            gravity: false,
            dense_stars: false,
            vulnerable: false,
        }
    }
}

} // verus!
