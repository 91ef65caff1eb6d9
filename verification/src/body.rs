//! A player's statistics blob: twenty-five fixed bytes followed by a
//! mode-specific tail that the server stores and echoes opaquely.

use crate::protocol::{NetTransportReceive, NetTransportSend};
use crate::stats::{
    MechosomaStatistic, MustodontStatistic, PassemblossStatistic, VanWarStatistics,
};
use crate::utils::{
    slice_le_to_i16, slice_le_to_i32, slice_le_to_u32, i16_le, i32_le, spec_i16_from_le,
    spec_i16_le, spec_i32_from_le, spec_i32_le,
};
use vstd::prelude::*;

verus! {

/// A parsed, per-mode statistics tail.
#[derive(Debug)]
pub enum Statistics {
    UNDEFINED,
    VanWar(VanWarStatistics),
    Mechosoma(MechosomaStatistic),
    Passembloss(PassemblossStatistic),
    Huntage,
    Mustodont(MustodontStatistic),
}

/// The mathematical value of a `Body`.
#[verifier::ext_equal]
pub ghost struct BodyModel {
    pub kills: u8,
    pub deaths: u8,
    pub color: u8,
    pub world: u8,
    pub beebos: u32,
    pub rating: u32,
    pub car_index: u8,
    pub data1: i16,
    pub data2: i16,
    pub birth_time: u32,
    pub net_id: i32,
    pub stats: Seq<u8>,
}

/// A player's statistics blob. `rating` holds the raw little-endian bits of
/// the wire's 32-bit floating-point rating; the server never computes with
/// it, only stores and echoes it.
#[derive(Debug, Default)]
pub struct Body {
    pub kills: u8,
    pub deaths: u8,
    pub color: u8,
    pub world: u8,
    pub beebos: u32,
    pub rating: u32,
    pub car_index: u8,
    pub data1: i16,
    pub data2: i16,
    pub birth_time: u32,
    pub net_id: i32,
    /// The mode-specific tail, stored and echoed opaquely.
    pub stats: Vec<u8>,
}

impl View for Body {
    type V = BodyModel;

    open spec fn view(&self) -> BodyModel {
        BodyModel {
            kills: self.kills,
            deaths: self.deaths,
            color: self.color,
            world: self.world,
            beebos: self.beebos,
            rating: self.rating,
            car_index: self.car_index,
            data1: self.data1,
            data2: self.data2,
            birth_time: self.birth_time,
            net_id: self.net_id,
            stats: self.stats@,
        }
    }
}

impl DeepView for Body {
    type V = BodyModel;

    open spec fn deep_view(&self) -> BodyModel {
        self.view()
    }
}

/// The wire bytes of a body: the twenty-five fixed bytes then the tail.
pub open spec fn spec_body_le(m: BodyModel) -> Seq<u8> {
    seq![m.kills, m.deaths, m.color, m.world] + vstd::bytes::spec_u32_to_le_bytes(m.beebos)
        + vstd::bytes::spec_u32_to_le_bytes(m.rating) + seq![m.car_index] + spec_i16_le(m.data1)
        + spec_i16_le(m.data2) + vstd::bytes::spec_u32_to_le_bytes(m.birth_time) + spec_i32_le(
        m.net_id,
    ) + m.stats
}

/// The body that wire bytes of at least twenty-five bytes describe.
pub open spec fn spec_body_from(s: Seq<u8>) -> BodyModel {
    BodyModel {
        kills: s[0],
        deaths: s[1],
        color: s[2],
        world: s[3],
        beebos: vstd::bytes::spec_u32_from_le_bytes(s.subrange(4, 8)),
        rating: vstd::bytes::spec_u32_from_le_bytes(s.subrange(8, 12)),
        car_index: s[12],
        data1: spec_i16_from_le(s.subrange(13, 15)),
        data2: spec_i16_from_le(s.subrange(15, 17)),
        birth_time: vstd::bytes::spec_u32_from_le_bytes(s.subrange(17, 21)),
        net_id: spec_i32_from_le(s.subrange(21, 25)),
        stats: s.skip(25),
    }
}

impl Body {
    /// The summed size of the fixed fields, the tail excluded.
    fn get_base_struct_size() -> (r: usize)
        ensures
            r == 25,
    {
        1 + 1 + 1 + 1 + 4 + 4 + 1 + 2 + 2 + 4 + 4
    }
}

impl NetTransportSend for Body {
    fn to_vangers_byte(&self) -> (r: Vec<u8>)
        ensures
            r@ == spec_body_le(self@),
    {
        let mut out: Vec<u8> = vec![self.kills, self.deaths, self.color, self.world];
        let mut b = vstd::bytes::u32_to_le_bytes(self.beebos);
        out.append(&mut b);
        let mut b = vstd::bytes::u32_to_le_bytes(self.rating);
        out.append(&mut b);
        out.push(self.car_index);
        let mut b = i16_le(self.data1);
        out.append(&mut b);
        let mut b = i16_le(self.data2);
        out.append(&mut b);
        let mut b = vstd::bytes::u32_to_le_bytes(self.birth_time);
        out.append(&mut b);
        let mut b = i32_le(self.net_id);
        out.append(&mut b);
        let mut b = vstd::slice::slice_to_vec(self.stats.as_slice());
        out.append(&mut b);
        assert(out@ =~= spec_body_le(self@));
        out
    }
}

impl NetTransportReceive for Body {
    fn from_slice(slice: &[u8]) -> (r: Option<Self>)
        ensures
            r is Some <==> slice@.len() >= 25,
            r is Some ==> r->0@ == spec_body_from(slice@),
    {
        let base_count_bytes = Self::get_base_struct_size();
        if slice.len() < base_count_bytes {
            return None;
        }

        let kills = slice[0];
        let deaths = slice[1];
        let color = slice[2];
        let world = slice[3];
        let beebos = slice_le_to_u32(&slice[4..8]);
        let rating = slice_le_to_u32(&slice[8..12]);
        let car_index = slice[12];
        let data1 = slice_le_to_i16(&slice[13..15]);
        let data2 = slice_le_to_i16(&slice[15..17]);
        let birth_time = slice_le_to_u32(&slice[17..21]);
        let net_id = slice_le_to_i32(&slice[21..25]);
        let stats = vstd::slice::slice_to_vec(
            vstd::slice::slice_subrange(slice, 25, slice.len()),
        );

        Some(
            Self {
                kills,
                deaths,
                color,
                world,
                beebos,
                rating,
                car_index,
                data1,
                data2,
                birth_time,
                net_id,
                stats,
            },
        )
    }
}

/// Parsing the wire bytes of a body and re-serializing yields the same bytes.
pub proof fn lemma_body_round_trip(s: Seq<u8>)
    requires
        s.len() >= 25,
    ensures
        spec_body_le(spec_body_from(s)) == s,
{
    vstd::bytes::lemma_auto_spec_u16_to_from_le_bytes();
    vstd::bytes::lemma_auto_spec_u32_to_from_le_bytes();
    assert(s.subrange(4, 8).len() == 4);
    assert(s.subrange(8, 12).len() == 4);
    assert(s.subrange(13, 15).len() == 2);
    assert(s.subrange(15, 17).len() == 2);
    assert(s.subrange(17, 21).len() == 4);
    assert(s.subrange(21, 25).len() == 4);
    crate::utils::lemma_sign_le_round_trip_2(s.subrange(13, 15));
    crate::utils::lemma_sign_le_round_trip_2(s.subrange(15, 17));
    crate::utils::lemma_sign_le_round_trip_4(s.subrange(21, 25));
    assert(spec_body_le(spec_body_from(s)) =~= s);
}

} // verus!
