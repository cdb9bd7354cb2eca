use glam::Vec3;
use vstd::prelude::*;

use crate::component::Component;

verus! {

#[verifier::external_type_specification]
#[verifier::external_body]
pub struct ExVec3(Vec3);

/// Position with interpolation history: the previous and the current
/// simulated position.
#[derive(Clone, Copy, Debug, Default)]
pub struct Position {
    pub prev: Vec3,
    pub curr: Vec3,
}

impl Component for Position {

}

impl Position {
    /// Spawn-time constructor: sets both fields, so a new entity does not
    /// interpolate in from the origin on its first rendered frame.
    pub fn at(p: Vec3) -> (r: Position)
        ensures
            r.prev == p,
            r.curr == p,
    {
        Position { prev: p, curr: p }
    }

    /// Move without interpolating, for spawns, wraps and teleports.
    pub fn teleport(&mut self, p: Vec3)
        ensures
            final(self).prev == p,
            final(self).curr == p,
    {
        self.prev = p;
        self.curr = p;
    }
}

} // verus!
