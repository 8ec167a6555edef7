//! The controls held down during one frame.

use vstd::prelude::*;

verus! {

pub struct InputState {
    pub forward: bool,
    pub backward: bool,
    pub yaw_left: bool,
    pub yaw_right: bool,
    pub pitch_up: bool,
    pub pitch_down: bool,
    pub roll_left: bool,
    pub roll_right: bool,
    pub fire: bool,
}

pub open spec fn released(s: InputState) -> bool {
    &&& !s.forward
    &&& !s.backward
    &&& !s.yaw_left
    &&& !s.yaw_right
    &&& !s.pitch_up
    &&& !s.pitch_down
    &&& !s.roll_left
    &&& !s.roll_right
    &&& !s.fire
}

impl Default for InputState {
    fn default() -> (s: Self)
        ensures
            released(s),
    {
        InputState {
            forward: false,
            backward: false,
            yaw_left: false,
            yaw_right: false,
            pitch_up: false,
            pitch_down: false,
            roll_left: false,
            roll_right: false,
            fire: false,
        }
    }
}

impl InputState {
    /// Releases every control.
    pub fn clear(&mut self)
        ensures
            released(*final(self)),
    {
        *self = Self::default();
    }
}

} // verus!
