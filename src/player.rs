//! The player character's jump budget; its geometry belongs to the host.
use vstd::prelude::*;

verus! {

/// The player character. `V` is the vector type of the host's geometry.
pub struct Player<V> {
    pub position: V,
    pub size: V,
    pub velocity: V,
    /// The jumps left before the player must land again.
    pub jumps: u32,
    /// The jumps that landing restores.
    pub max_jumps: u32,
}

impl<V: Copy + Default> Player<V> {
    /// A player at rest (the default velocity, the host's zero vector) with
    /// the given position and size, and two jumps.
    pub fn new(position: V, size: V) -> (r: Self)
        ensures
            r.position == position,
            r.size == size,
            call_ensures(V::default, (), r.velocity),
            r.jumps == 2,
            r.max_jumps == 2,
    {
        Self { position, size, velocity: V::default(), jumps: 2, max_jumps: 2 }
    }

    /// Whether the player has used a jump since landing.
    pub fn jumping(&self) -> (r: bool)
        ensures
            r == (self.jumps < self.max_jumps),
    {
        self.jumps < self.max_jumps
    }

    /// The jumps left before the player must land again.
    pub fn jumps(&self) -> (r: u32)
        ensures
            r == self.jumps,
    {
        self.jumps
    }

    /// Uses a jump when one is left; returns whether one was used.
    pub fn try_jump(&mut self) -> (jumped: bool)
        ensures
            jumped == (old(self).jumps > 0),
            final(self).jumps == if jumped {
                (old(self).jumps - 1) as u32
            } else {
                old(self).jumps
            },
            final(self).max_jumps == old(self).max_jumps,
            final(self).position == old(self).position,
            final(self).size == old(self).size,
            final(self).velocity == old(self).velocity,
    {
        if self.jumps > 0 {
            self.jumps = self.jumps - 1;
            true
        } else {
            false
        }
    }

    /// Lands on the ground, which restores every jump.
    pub fn land(&mut self)
        ensures
            final(self).jumps == old(self).max_jumps,
            final(self).max_jumps == old(self).max_jumps,
            final(self).position == old(self).position,
            final(self).size == old(self).size,
            final(self).velocity == old(self).velocity,
    {
        self.jumps = self.max_jumps;
    }
}

} // verus!
