//! Per-mode player statistics blobs: fixed-size groups of 32-bit counters
//! that the server stores and echoes.

use crate::protocol::{NetTransportReceive, NetTransportSend};
use crate::utils::{i32_le, slice_le_to_i32, spec_i32_from_le, spec_i32_le};
use vstd::prelude::*;

verus! {

/// A fixed-size statistics blob with its wire size.
pub trait PlayerStatistics: NetTransportSend + NetTransportReceive {
    fn get_struct_size() -> usize;
}

/// Van-War statistics: life times and kill/death frequencies.
#[derive(Debug, PartialEq, Eq, Structural)]
pub struct VanWarStatistics {
    pub max_live_time: i32,
    pub min_live_time: i32,
    pub kill_freq: i32,
    pub death_freaq: i32,
}

/// The sixteen wire bytes of Van-War statistics.
pub open spec fn spec_vanwar_stats_le(s: VanWarStatistics) -> Seq<u8> {
    spec_i32_le(s.max_live_time) + spec_i32_le(s.min_live_time) + spec_i32_le(s.kill_freq)
        + spec_i32_le(s.death_freaq)
}

impl PlayerStatistics for VanWarStatistics {
    fn get_struct_size() -> (r: usize)
        ensures
            r == 16,
    {
        16
    }
}

impl NetTransportSend for VanWarStatistics {
    fn to_vangers_byte(&self) -> (r: Vec<u8>)
        ensures
            r@ == spec_vanwar_stats_le(*self),
    {
        let mut out = i32_le(self.max_live_time);
        let mut b = i32_le(self.min_live_time);
        out.append(&mut b);
        let mut b = i32_le(self.kill_freq);
        out.append(&mut b);
        let mut b = i32_le(self.death_freaq);
        out.append(&mut b);
        out
    }
}

impl NetTransportReceive for VanWarStatistics {
    fn from_slice(slice: &[u8]) -> (r: Option<Self>)
        ensures
            r is Some <==> slice@.len() == 16,
            r is Some ==> r->0 == (VanWarStatistics {
                max_live_time: spec_i32_from_le(slice@.subrange(0, 4)),
                min_live_time: spec_i32_from_le(slice@.subrange(4, 8)),
                kill_freq: spec_i32_from_le(slice@.subrange(8, 12)),
                death_freaq: spec_i32_from_le(slice@.subrange(12, 16)),
            }),
    {
        if slice.len() != 16 {
            return None;
        }
        Some(
            Self {
                max_live_time: slice_le_to_i32(&slice[0..4]),
                min_live_time: slice_le_to_i32(&slice[4..8]),
                kill_freq: slice_le_to_i32(&slice[8..12]),
                death_freaq: slice_le_to_i32(&slice[12..16]),
            },
        )
    }
}

/// Mechosoma statistics: carried items, transit times and losses.
#[derive(Debug, PartialEq, Eq, Structural)]
pub struct MechosomaStatistic {
    pub item_count1: i32,
    pub item_count2: i32,
    pub max_transit_time: i32,
    pub min_transit_time: i32,
    pub sneak_count: i32,
    pub lost_count: i32,
}

/// The twenty-four wire bytes of Mechosoma statistics.
pub open spec fn spec_mechosoma_stats_le(s: MechosomaStatistic) -> Seq<u8> {
    spec_i32_le(s.item_count1) + spec_i32_le(s.item_count2) + spec_i32_le(s.max_transit_time)
        + spec_i32_le(s.min_transit_time) + spec_i32_le(s.sneak_count) + spec_i32_le(s.lost_count)
}

impl PlayerStatistics for MechosomaStatistic {
    fn get_struct_size() -> (r: usize)
        ensures
            r == 24,
    {
        24
    }
}

impl NetTransportSend for MechosomaStatistic {
    fn to_vangers_byte(&self) -> (r: Vec<u8>)
        ensures
            r@ == spec_mechosoma_stats_le(*self),
    {
        let mut out = i32_le(self.item_count1);
        let mut b = i32_le(self.item_count2);
        out.append(&mut b);
        let mut b = i32_le(self.max_transit_time);
        out.append(&mut b);
        let mut b = i32_le(self.min_transit_time);
        out.append(&mut b);
        let mut b = i32_le(self.sneak_count);
        out.append(&mut b);
        let mut b = i32_le(self.lost_count);
        out.append(&mut b);
        out
    }
}

impl NetTransportReceive for MechosomaStatistic {
    fn from_slice(slice: &[u8]) -> (r: Option<Self>)
        ensures
            r is Some <==> slice@.len() == 24,
            r is Some ==> r->0 == (MechosomaStatistic {
                item_count1: spec_i32_from_le(slice@.subrange(0, 4)),
                item_count2: spec_i32_from_le(slice@.subrange(4, 8)),
                max_transit_time: spec_i32_from_le(slice@.subrange(8, 12)),
                min_transit_time: spec_i32_from_le(slice@.subrange(12, 16)),
                sneak_count: spec_i32_from_le(slice@.subrange(16, 20)),
                lost_count: spec_i32_from_le(slice@.subrange(20, 24)),
            }),
    {
        if slice.len() != 24 {
            return None;
        }
        Some(
            Self {
                item_count1: slice_le_to_i32(&slice[0..4]),
                item_count2: slice_le_to_i32(&slice[4..8]),
                max_transit_time: slice_le_to_i32(&slice[8..12]),
                min_transit_time: slice_le_to_i32(&slice[12..16]),
                sneak_count: slice_le_to_i32(&slice[16..20]),
                lost_count: slice_le_to_i32(&slice[20..24]),
            },
        )
    }
}

/// Passembloss statistics: checkpoint times.
#[derive(Debug, PartialEq, Eq, Structural)]
pub struct PassemblossStatistic {
    pub total_time: i32,
    pub checkpoint_lighting: i32,
    pub min_time: i32,
    pub max_time: i32,
}

/// The sixteen wire bytes of Passembloss statistics.
pub open spec fn spec_passembloss_stats_le(s: PassemblossStatistic) -> Seq<u8> {
    spec_i32_le(s.total_time) + spec_i32_le(s.checkpoint_lighting) + spec_i32_le(s.min_time)
        + spec_i32_le(s.max_time)
}

impl PlayerStatistics for PassemblossStatistic {
    fn get_struct_size() -> (r: usize)
        ensures
            r == 16,
    {
        16
    }
}

impl NetTransportSend for PassemblossStatistic {
    fn to_vangers_byte(&self) -> (r: Vec<u8>)
        ensures
            r@ == spec_passembloss_stats_le(*self),
    {
        let mut out = i32_le(self.total_time);
        let mut b = i32_le(self.checkpoint_lighting);
        out.append(&mut b);
        let mut b = i32_le(self.min_time);
        out.append(&mut b);
        let mut b = i32_le(self.max_time);
        out.append(&mut b);
        out
    }
}

impl NetTransportReceive for PassemblossStatistic {
    fn from_slice(slice: &[u8]) -> (r: Option<Self>)
        ensures
            r is Some <==> slice@.len() == 16,
            r is Some ==> r->0 == (PassemblossStatistic {
                total_time: spec_i32_from_le(slice@.subrange(0, 4)),
                checkpoint_lighting: spec_i32_from_le(slice@.subrange(4, 8)),
                min_time: spec_i32_from_le(slice@.subrange(8, 12)),
                max_time: spec_i32_from_le(slice@.subrange(12, 16)),
            }),
    {
        if slice.len() != 16 {
            return None;
        }
        Some(
            Self {
                total_time: slice_le_to_i32(&slice[0..4]),
                checkpoint_lighting: slice_le_to_i32(&slice[4..8]),
                min_time: slice_le_to_i32(&slice[8..12]),
                max_time: slice_le_to_i32(&slice[12..16]),
            },
        )
    }
}

/// Mustodont statistics: assembly times.
#[derive(Debug, PartialEq, Eq, Structural)]
pub struct MustodontStatistic {
    pub part_time1: i32,
    pub part_time2: i32,
    pub body_time: i32,
    pub make_time: i32,
}

/// The sixteen wire bytes of Mustodont statistics.
pub open spec fn spec_mustodont_stats_le(s: MustodontStatistic) -> Seq<u8> {
    spec_i32_le(s.part_time1) + spec_i32_le(s.part_time2) + spec_i32_le(s.body_time) + spec_i32_le(
        s.make_time,
    )
}

impl PlayerStatistics for MustodontStatistic {
    fn get_struct_size() -> (r: usize)
        ensures
            r == 16,
    {
        16
    }
}

impl NetTransportSend for MustodontStatistic {
    fn to_vangers_byte(&self) -> (r: Vec<u8>)
        ensures
            r@ == spec_mustodont_stats_le(*self),
    {
        let mut out = i32_le(self.part_time1);
        let mut b = i32_le(self.part_time2);
        out.append(&mut b);
        let mut b = i32_le(self.body_time);
        out.append(&mut b);
        let mut b = i32_le(self.make_time);
        out.append(&mut b);
        out
    }
}

impl NetTransportReceive for MustodontStatistic {
    fn from_slice(slice: &[u8]) -> (r: Option<Self>)
        ensures
            r is Some <==> slice@.len() == 16,
            r is Some ==> r->0 == (MustodontStatistic {
                part_time1: spec_i32_from_le(slice@.subrange(0, 4)),
                part_time2: spec_i32_from_le(slice@.subrange(4, 8)),
                body_time: spec_i32_from_le(slice@.subrange(8, 12)),
                make_time: spec_i32_from_le(slice@.subrange(12, 16)),
            }),
    {
        if slice.len() != 16 {
            return None;
        }
        Some(
            Self {
                part_time1: slice_le_to_i32(&slice[0..4]),
                part_time2: slice_le_to_i32(&slice[4..8]),
                body_time: slice_le_to_i32(&slice[8..12]),
                make_time: slice_le_to_i32(&slice[12..16]),
            },
        )
    }
}

} // verus!
