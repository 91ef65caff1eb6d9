//! Per-mode session parameters, read once from SET_GAME_DATA and echoed in
//! GET_GAME_DATA.

use crate::utils::{i32_le, slice_le_to_i32, spec_i32_from_le, spec_i32_le, i32_of_u32, spec_i32_of_u32};
use vstd::prelude::*;

verus! {

/// Van-War parameters. `max_time` is not taken from the wire: the server
/// pins it to the largest 32-bit value so a match never times out.
#[derive(Debug, PartialEq, Eq, Structural)]
pub struct VanWar {
    pub nascency: i32,
    pub team_mode: i32,
    pub world_access: i32,
    pub max_kills: i32,
    pub max_time: u32,
}

/// The twenty wire bytes of Van-War parameters.
pub open spec fn spec_vanwar_le(v: VanWar) -> Seq<u8> {
    spec_i32_le(v.nascency) + spec_i32_le(v.team_mode) + spec_i32_le(v.world_access) + spec_i32_le(
        v.max_kills,
    ) + spec_i32_le(spec_i32_of_u32(v.max_time))
}

impl VanWar {
    pub fn to_vangers_byte(&self) -> (r: Vec<u8>)
        ensures
            r@ == spec_vanwar_le(*self),
    {
        let mut out = i32_le(self.nascency);
        let mut b = i32_le(self.team_mode);
        out.append(&mut b);
        let mut b = i32_le(self.world_access);
        out.append(&mut b);
        let mut b = i32_le(self.max_kills);
        out.append(&mut b);
        let mut b = i32_le(i32_of_u32(self.max_time));
        out.append(&mut b);
        out
    }

    /// Reads the parameters from at least twenty bytes; `max_time` is forced
    /// to the largest 32-bit value rather than read from the wire.
    pub fn from_slice(slice: &[u8]) -> (r: Self)
        requires
            slice@.len() >= 20,
        ensures
            r == (VanWar {
                nascency: spec_i32_from_le(slice@.subrange(0, 4)),
                team_mode: spec_i32_from_le(slice@.subrange(4, 8)),
                world_access: spec_i32_from_le(slice@.subrange(8, 12)),
                max_kills: spec_i32_from_le(slice@.subrange(12, 16)),
                max_time: 0x7FFF_FFFFu32,
            }),
    {
        Self {
            nascency: slice_le_to_i32(&slice[0..4]),
            team_mode: slice_le_to_i32(&slice[4..8]),
            world_access: slice_le_to_i32(&slice[8..12]),
            max_kills: slice_le_to_i32(&slice[12..16]),
            max_time: 0x7FFF_FFFF,
        }
    }
}

impl Default for VanWar {
    fn default() -> (r: Self)
        ensures
            r == (VanWar {
                nascency: 0i32,
                team_mode: 0i32,
                world_access: 0i32,
                max_kills: 100i32,
                max_time: 6000u32,
            }),
    {
        Self { nascency: 0, team_mode: 0, world_access: 0, max_kills: 100, max_time: 6000 }
    }
}

/// Mechosoma parameters: the world and the goods to carry.
#[derive(Debug, PartialEq, Eq, Structural)]
pub struct Mechosoma {
    pub world: i32,
    pub product_quantity1: i32,
    pub product_quantity2: i32,
    pub one_at_a_time: i32,
    pub team_mode: i32,
}

/// The twenty wire bytes of Mechosoma parameters.
pub open spec fn spec_mechosoma_le(v: Mechosoma) -> Seq<u8> {
    spec_i32_le(v.world) + spec_i32_le(v.product_quantity1) + spec_i32_le(v.product_quantity2)
        + spec_i32_le(v.one_at_a_time) + spec_i32_le(v.team_mode)
}

impl Mechosoma {
    pub fn to_vangers_byte(&self) -> (r: Vec<u8>)
        ensures
            r@ == spec_mechosoma_le(*self),
    {
        let mut out = i32_le(self.world);
        let mut b = i32_le(self.product_quantity1);
        out.append(&mut b);
        let mut b = i32_le(self.product_quantity2);
        out.append(&mut b);
        let mut b = i32_le(self.one_at_a_time);
        out.append(&mut b);
        let mut b = i32_le(self.team_mode);
        out.append(&mut b);
        out
    }

    /// Reads the parameters from at least twenty bytes.
    pub fn from_slice(slice: &[u8]) -> (r: Self)
        requires
            slice@.len() >= 20,
        ensures
            r == (Mechosoma {
                world: spec_i32_from_le(slice@.subrange(0, 4)),
                product_quantity1: spec_i32_from_le(slice@.subrange(4, 8)),
                product_quantity2: spec_i32_from_le(slice@.subrange(8, 12)),
                one_at_a_time: spec_i32_from_le(slice@.subrange(12, 16)),
                team_mode: spec_i32_from_le(slice@.subrange(16, 20)),
            }),
    {
        Self {
            world: slice_le_to_i32(&slice[0..4]),
            product_quantity1: slice_le_to_i32(&slice[4..8]),
            product_quantity2: slice_le_to_i32(&slice[8..12]),
            one_at_a_time: slice_le_to_i32(&slice[12..16]),
            team_mode: slice_le_to_i32(&slice[16..20]),
        }
    }
}

impl Default for Mechosoma {
    fn default() -> (r: Self)
        ensures
            r == (Mechosoma {
                world: 0i32,
                product_quantity1: 10i32,
                product_quantity2: 10i32,
                one_at_a_time: 10i32,
                team_mode: 0i32,
            }),
    {
        Self {
            world: 0,
            product_quantity1: 10,
            product_quantity2: 10,
            one_at_a_time: 10,
            team_mode: 0,
        }
    }
}

/// Passembloss parameters: checkpoints and escave placement.
#[derive(Debug, PartialEq, Eq, Structural)]
pub struct Passembloss {
    pub checkpoints_number: i32,
    pub random_escave: i32,
}

/// The eight wire bytes of Passembloss parameters.
pub open spec fn spec_passembloss_le(v: Passembloss) -> Seq<u8> {
    spec_i32_le(v.checkpoints_number) + spec_i32_le(v.random_escave)
}

impl Passembloss {
    pub fn to_vangers_byte(&self) -> (r: Vec<u8>)
        ensures
            r@ == spec_passembloss_le(*self),
    {
        let mut out = i32_le(self.checkpoints_number);
        let mut b = i32_le(self.random_escave);
        out.append(&mut b);
        out
    }

    /// Reads the parameters from at least eight bytes.
    pub fn from_slice(slice: &[u8]) -> (r: Self)
        requires
            slice@.len() >= 8,
        ensures
            r == (Passembloss {
                checkpoints_number: spec_i32_from_le(slice@.subrange(0, 4)),
                random_escave: spec_i32_from_le(slice@.subrange(4, 8)),
            }),
    {
        Self {
            checkpoints_number: slice_le_to_i32(&slice[0..4]),
            random_escave: slice_le_to_i32(&slice[4..8]),
        }
    }
}

impl Default for Passembloss {
    fn default() -> (r: Self)
        ensures
            r == (Passembloss { checkpoints_number: 10i32, random_escave: 0i32 }),
    {
        Self { checkpoints_number: 10, random_escave: 0 }
    }
}

/// Mustodont parameters: naming and team play.
#[derive(Debug, PartialEq, Eq, Structural)]
pub struct Mustodont {
    pub unique_mechos_name: i32,
    pub team_mode: i32,
}

/// The eight wire bytes of Mustodont parameters.
pub open spec fn spec_mustodont_le(v: Mustodont) -> Seq<u8> {
    spec_i32_le(v.unique_mechos_name) + spec_i32_le(v.team_mode)
}

impl Mustodont {
    pub fn to_vangers_byte(&self) -> (r: Vec<u8>)
        ensures
            r@ == spec_mustodont_le(*self),
    {
        let mut out = i32_le(self.unique_mechos_name);
        let mut b = i32_le(self.team_mode);
        out.append(&mut b);
        out
    }

    /// Reads the parameters from at least eight bytes.
    pub fn from_slice(slice: &[u8]) -> (r: Self)
        requires
            slice@.len() >= 8,
        ensures
            r == (Mustodont {
                unique_mechos_name: spec_i32_from_le(slice@.subrange(0, 4)),
                team_mode: spec_i32_from_le(slice@.subrange(4, 8)),
            }),
    {
        Self {
            unique_mechos_name: slice_le_to_i32(&slice[0..4]),
            team_mode: slice_le_to_i32(&slice[4..8]),
        }
    }
}

impl Default for Mustodont {
    fn default() -> (r: Self)
        ensures
            r == (Mustodont { unique_mechos_name: 0i32, team_mode: 0i32 }),
    {
        Self { unique_mechos_name: 0, team_mode: 0 }
    }
}

} // verus!
