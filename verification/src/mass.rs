//! A Mass as the topology sees it: its id, its matter, and the ids of the
//! Masses it is connected to.

use vstd::prelude::*;

verus! {

/// One Mass of the lattice.
pub struct Mass {
    /// Its id, which is also its index among all Masses.
    pub id: usize,
    /// Its matter: 0 antigrav, 1 elastic, 2 gas.
    pub matter: u8,
    /// The ids of the Masses it is connected to, oldest connection first.
    pub connections: Vec<usize>,
}

/// The value chosen for matter `matter`: antigrav for 0, elastic for 1, gas
/// for 2, and elastic for any other code.
pub open spec fn by_matter(matter: u8, antigrav: int, elastic: int, gas: int) -> int {
    if matter == 0 {
        antigrav
    } else if matter == 2 {
        gas
    } else {
        elastic
    }
}

/// The radius of a Mass of matter `matter`, given the radius of each matter.
pub fn matter_radius(matter: u8, antigrav: u32, elastic: u32, gas: u32) -> (r: u32)
    ensures
        r == by_matter(matter, antigrav as int, elastic as int, gas as int),
{
    match matter {
        0 => antigrav,
        1 => elastic,
        2 => gas,
        _ => elastic,
    }
}

impl Mass {
    /// Whether this Mass is connected to the Mass `other_id`.
    pub fn is_connected_to(&self, other_id: usize) -> (b: bool)
        ensures
            b == self.connections@.contains(other_id),
    {
        let mut i: usize = 0;
        while i < self.connections.len()
            invariant
                i <= self.connections.len(),
                forall|t: int| 0 <= t < i ==> self.connections@[t] != other_id,
            decreases self.connections.len() - i,
        {
            if self.connections[i] == other_id {
                return true;
            }
            i = i + 1;
        }
        false
    }
}

} // verus!
