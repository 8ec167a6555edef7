//! Table sizes of the game world.

use vstd::prelude::*;

verus! {

pub const NPLANETS: usize = 32;
pub const NTARGETS: usize = 32;
pub const NMSLS: usize = 32;
pub const NBOOMS: usize = 32;
pub const NWAYPOINTS: usize = 32;
pub const NSTARS: usize = 2000;
pub const NWEAPONS: usize = 10;
pub const NPLAYER_WEAPONS: usize = 4;
pub const NEVENTS: usize = 32;
pub const ACTIONS_PER_EVENT: usize = 64;
pub const CONSLINES: usize = 10;
pub const NSAVES: usize = 10;

} // verus!
