//! The object ("vanject") model: the bit-packed 32-bit identity, the parse,
//! update and serialize paths, and their round-trip laws.

use crate::player::Player;
use crate::utils::{
    slice_le_to_i16, slice_le_to_i32, spec_i16_from_le, spec_i16_le, spec_i32_from_le, spec_i32_le,
    spec_u32_of_i32, i16_le, i32_le, u32_of_i32,
};
use vstd::prelude::*;

verus! {

/// The type code of a player's avatar object, in its shifted wire position.
pub const NID_VANGER: i32 = 0x90000;

// ---------------------------------------------------------------------------
// Identity bit fields. An object id packs, from the most significant bit:
// a static flag (1 bit), the owner station/slot (5 bits), the world index
// (4 bits) and the type code (6 bits); the low 16 bits number the object.
// ---------------------------------------------------------------------------

/// The owner station (slot) field of an object id.
pub open spec fn spec_station(id: i32) -> i32 {
    ((spec_u32_of_i32(id) >> 26) & 31) as i32
}

/// The world index field of an object id.
pub open spec fn spec_world_of_id(id: i32) -> i32 {
    ((spec_u32_of_i32(id) >> 22) & 15) as i32
}

/// The type code field of an object id, kept in its shifted position.
pub open spec fn spec_vanject_type(id: i32) -> i32 {
    (spec_u32_of_i32(id) & 0x003F_0000) as i32
}

/// Whether the static flag of an object id is clear.
pub open spec fn spec_is_non_static(id: i32) -> bool {
    spec_u32_of_i32(id) & 0x8000_0000 == 0
}

/// Whether the object belongs to a player's slot (the three high bits of the
/// type code are clear).
pub open spec fn spec_is_players(id: i32) -> bool {
    spec_u32_of_i32(id) & 0x0038_0000 == 0
}

/// Whether the object is private to a player (type code between 8 and 10:
/// inventory or avatar), destroyed when its owner leaves a world.
pub open spec fn spec_is_private(id: i32) -> bool {
    8 <= (spec_u32_of_i32(id) >> 16) & 63 <= 10
}

/// Whether the object lives in a world rather than in the session's global
/// map (its type code is not zero).
pub open spec fn spec_is_non_global(id: i32) -> bool {
    (spec_u32_of_i32(id) >> 16) & 63 != 0
}

/// The owner station (slot) field of an object id, under the name the wire
/// format's oldest descriptions use.
pub fn client_id(id: i32) -> (r: i32)
    ensures
        r == spec_station(id),
        0 <= r <= 31,
{
    get_station(id)
}

/// The owner station (slot) field of an object id.
pub fn get_station(id: i32) -> (r: i32)
    ensures
        r == spec_station(id),
        0 <= r <= 31,
{
    let bits = u32_of_i32(id);
    assert((bits >> 26) & 31 <= 31) by (bit_vector);
    ((bits >> 26) & 31) as i32
}

/// The world index field of an object id.
pub fn get_world(id: i32) -> (r: i32)
    ensures
        r == spec_world_of_id(id),
        0 <= r <= 15,
{
    let bits = u32_of_i32(id);
    assert((bits >> 22) & 15 <= 15) by (bit_vector);
    ((bits >> 22) & 15) as i32
}

/// The type code field of an object id, kept in its shifted position.
pub fn get_vanject_type(id: i32) -> (r: i32)
    ensures
        r == spec_vanject_type(id),
        0 <= r <= 0x003F_0000,
{
    let bits = u32_of_i32(id);
    assert(bits & 0x003F_0000 <= 0x003F_0000) by (bit_vector);
    (bits & 0x003F_0000) as i32
}

/// Whether the static flag of an object id is clear.
pub fn is_non_static(id: i32) -> (r: bool)
    ensures
        r == spec_is_non_static(id),
{
    let bits = u32_of_i32(id);
    bits & 0x8000_0000 == 0
}

/// Whether the object belongs to a player's slot.
pub fn is_players_vanject(id: i32) -> (r: bool)
    ensures
        r == spec_is_players(id),
{
    let bits = u32_of_i32(id);
    bits & 0x0038_0000 == 0
}

/// Whether the object is private to a player (inventory or avatar).
pub fn is_private_vanject(id: i32) -> (r: bool)
    ensures
        r == spec_is_private(id),
{
    let bits = u32_of_i32(id);
    let t = (bits >> 16) & 63;
    8 <= t && t <= 10
}

/// Whether the object lives in a world rather than the session's global map.
pub fn is_non_global_vanject(id: i32) -> (r: bool)
    ensures
        r == spec_is_non_global(id),
{
    let bits = u32_of_i32(id);
    (bits >> 16) & 63 != 0
}

/// The status codes a player walks through, as the wire sends them.
#[allow(non_camel_case_types)]
#[derive(Copy, Clone, PartialEq, Eq, Structural, Debug)]
pub enum PlayerStatus {
    INITIAL_STATUS,
    GAMING_STATUS,
    FINISHED_STATUS,
}

impl PlayerStatus {
    /// The wire byte of this status.
    pub fn to_u8(&self) -> (r: u8)
        ensures
            r == spec_player_status_code(*self),
    {
        match self {
            PlayerStatus::INITIAL_STATUS => 0,
            PlayerStatus::GAMING_STATUS => 1,
            PlayerStatus::FINISHED_STATUS => 2,
        }
    }
}

/// The wire byte of each player status.
pub open spec fn spec_player_status_code(s: PlayerStatus) -> u8 {
    match s {
        PlayerStatus::INITIAL_STATUS => 0,
        PlayerStatus::GAMING_STATUS => 1,
        PlayerStatus::FINISHED_STATUS => 2,
    }
}

/// A two-dimensional position.
#[derive(Debug, Clone, Copy, PartialEq, Eq, Structural)]
pub struct Pos<T> {
    pub x: T,
    pub y: T,
}

impl Pos<i16> {
    /// The default position at the origin.
    pub fn origin() -> (r: Pos<i16>)
        ensures
            r == (Pos { x: 0i16, y: 0i16 }),
    {
        Pos { x: 0, y: 0 }
    }

    /// Parses a position from four little-endian bytes, `None` on any other
    /// length.
    pub fn from_slice(slice: &[u8]) -> (r: Option<Pos<i16>>)
        ensures
            r is Some <==> slice@.len() == 4,
            r is Some ==> r->0 == spec_pos_from_le(slice@),
    {
        if slice.len() != 4 {
            return None;
        }
        Some(
            Pos {
                x: slice_le_to_i16(&slice[0..2]),
                y: slice_le_to_i16(&slice[2..4]),
            },
        )
    }

    /// Serializes the position as four little-endian bytes.
    pub fn to_vangers_byte(&self) -> (r: Vec<u8>)
        ensures
            r@ == spec_pos_le(*self),
    {
        let mut out = i16_le(self.x);
        let mut ybytes = i16_le(self.y);
        out.append(&mut ybytes);
        out
    }
}

/// The position read from four little-endian bytes.
pub open spec fn spec_pos_from_le(s: Seq<u8>) -> Pos<i16> {
    Pos { x: spec_i16_from_le(s.subrange(0, 2)), y: spec_i16_from_le(s.subrange(2, 4)) }
}

/// The four little-endian bytes of a position.
pub open spec fn spec_pos_le(p: Pos<i16>) -> Seq<u8> {
    spec_i16_le(p.x) + spec_i16_le(p.y)
}

/// What can go wrong reading object bytes from the wire.
#[derive(Debug)]
pub enum VanjectError {
    SliceTooSmall,
    Update(VanjectUpdateError),
    Create(VanjectCreateError),
}

/// Creation errors. No creation failure exists today beyond a short slice,
/// which `VanjectError::SliceTooSmall` reports, so no code builds a value of
/// this type.
#[derive(Debug)]
pub enum VanjectCreateError {
    Undefined,
}

/// Update errors.
#[derive(Debug)]
pub enum VanjectUpdateError {
    /// The id in the update bytes does not equal the stored id: expected,
    /// given.
    MissmatchId(i32, i32),
}

/// The mathematical value of a stored object.
#[verifier::ext_equal]
pub ghost struct VanjectModel {
    pub id: i32,
    pub player_bind_id: u8,
    pub time: i32,
    pub pos: Pos<i16>,
    pub radius: i16,
    pub body: Seq<u8>,
}

/// A game object: a vehicle, item, beacon or terrain feature. Its 32-bit id
/// is a bit-packed descriptor of type, world, owner slot and a static flag.
#[derive(Debug)]
pub struct Vanject {
    pub id: i32,
    pub player_bind_id: u8,
    pub time: i32,
    pub pos: Pos<i16>,
    pub radius: i16,
    pub body: Vec<u8>,
}

impl View for Vanject {
    type V = VanjectModel;

    open spec fn view(&self) -> VanjectModel {
        VanjectModel {
            id: self.id,
            player_bind_id: self.player_bind_id,
            time: self.time,
            pos: self.pos,
            radius: self.radius,
            body: self.body@,
        }
    }
}

impl DeepView for Vanject {
    type V = VanjectModel;

    open spec fn deep_view(&self) -> VanjectModel {
        self.view()
    }
}

/// Whether creation bytes are long enough: fourteen bytes at least, fifteen
/// for an avatar, whose extra byte carries the client's half screen height.
pub open spec fn spec_create_ok(s: Seq<u8>) -> bool {
    &&& s.len() >= 14
    &&& (spec_vanject_type(spec_i32_from_le(s.subrange(0, 4))) == NID_VANGER ==> s.len() >= 15)
}

/// The object that creation bytes describe: id, time, position and radius,
/// then the opaque body; the owner slot starts at zero until the server
/// binds the object.
pub open spec fn spec_created(s: Seq<u8>) -> VanjectModel {
    let id = spec_i32_from_le(s.subrange(0, 4));
    VanjectModel {
        id,
        player_bind_id: 0,
        time: spec_i32_from_le(s.subrange(4, 8)),
        pos: spec_pos_from_le(s.subrange(8, 12)),
        radius: spec_i16_from_le(s.subrange(12, 14)),
        body: if spec_vanject_type(id) == NID_VANGER {
            s.skip(15)
        } else {
            s.skip(14)
        },
    }
}

/// Whether update bytes fit the stored object `m`: twelve bytes at least
/// (thirteen for an avatar) and the id equal to the stored one.
pub open spec fn spec_update_ok(m: VanjectModel, s: Seq<u8>) -> bool {
    &&& s.len() >= 12
    &&& spec_i32_from_le(s.subrange(0, 4)) == m.id
    &&& (spec_vanject_type(m.id) == NID_VANGER ==> s.len() >= 13)
}

/// The stored object `m` after update bytes overwrite its time, position and
/// body; id, owner slot and radius are preserved.
pub open spec fn spec_updated(m: VanjectModel, s: Seq<u8>) -> VanjectModel {
    VanjectModel {
        time: spec_i32_from_le(s.subrange(4, 8)),
        pos: spec_pos_from_le(s.subrange(8, 12)),
        body: if spec_vanject_type(m.id) == NID_VANGER {
            s.skip(13)
        } else {
            s.skip(12)
        },
        ..m
    }
}

/// The bytes an object is sent as: id, owner slot, time, position, body.
pub open spec fn spec_vanject_wire(m: VanjectModel) -> Seq<u8> {
    spec_i32_le(m.id) + seq![m.player_bind_id] + spec_i32_le(m.time) + spec_pos_le(m.pos) + m.body
}

impl Vanject {
    /// Parses the payload of a CREATE_OBJECT packet into an object.
    pub fn create_from_slice(slice: &[u8]) -> (r: Result<Vanject, VanjectError>)
        ensures
            r is Ok <==> spec_create_ok(slice@),
            r is Ok ==> r->Ok_0@ == spec_created(slice@),
            r is Err ==> r->Err_0 is SliceTooSmall,
    {
        if slice.len() < 14 {
            return Err(VanjectError::SliceTooSmall);
        }

        let id = slice_le_to_i32(&slice[0..4]);
        let time = slice_le_to_i32(&slice[4..8]);
        let pos = match Pos::from_slice(&slice[8..12]) {
            Some(pos) => pos,
            None => {
                return Err(VanjectError::SliceTooSmall);
            },
        };
        let radius = slice_le_to_i16(&slice[12..14]);

        let body = if get_vanject_type(id) == NID_VANGER {
            if slice.len() < 15 {
                return Err(VanjectError::SliceTooSmall);
            }
            vstd::slice::slice_subrange(slice, 15, slice.len())
        } else {
            vstd::slice::slice_subrange(slice, 14, slice.len())
        };

        Ok(Vanject { id, player_bind_id: 0, time, pos, radius, body: vstd::slice::slice_to_vec(body) })
    }

    /// Overwrites time, position and body from the payload of an
    /// UPDATE_OBJECT packet; the id must equal the stored one and the radius
    /// is preserved. On any error the object is unchanged.
    pub fn update_from_slice(&mut self, slice: &[u8]) -> (r: Result<(), VanjectError>)
        ensures
            r is Ok <==> spec_update_ok(old(self)@, slice@),
            r is Ok ==> final(self)@ == spec_updated(old(self)@, slice@),
            r is Err ==> *final(self) == *old(self),
            r is Err ==> if slice@.len() < 12 {
                r->Err_0 is SliceTooSmall
            } else if spec_i32_from_le(slice@.subrange(0, 4)) != old(self)@.id {
                r->Err_0 == VanjectError::Update(
                    VanjectUpdateError::MissmatchId(
                        old(self)@.id,
                        spec_i32_from_le(slice@.subrange(0, 4)),
                    ),
                )
            } else {
                r->Err_0 is SliceTooSmall
            },
    {
        if slice.len() < 12 {
            return Err(VanjectError::SliceTooSmall);
        }

        let id = slice_le_to_i32(&slice[0..4]);
        if id != self.id {
            return Err(VanjectError::Update(VanjectUpdateError::MissmatchId(self.id, id)));
        }

        let time = slice_le_to_i32(&slice[4..8]);
        let pos = match Pos::from_slice(&slice[8..12]) {
            Some(pos) => pos,
            None => {
                return Err(VanjectError::SliceTooSmall);
            },
        };

        let body = if get_vanject_type(id) == NID_VANGER {
            if slice.len() < 13 {
                return Err(VanjectError::SliceTooSmall);
            }
            vstd::slice::slice_subrange(slice, 13, slice.len())
        } else {
            vstd::slice::slice_subrange(slice, 12, slice.len())
        };

        self.time = time;
        self.pos = pos;
        self.body = vstd::slice::slice_to_vec(body);

        Ok(())
    }

    /// Serializes the object for fan-out: id, owner slot, time, position and
    /// the opaque body.
    pub fn to_vangers_byte(&self) -> (r: Vec<u8>)
        ensures
            r@ == spec_vanject_wire(self@),
    {
        let mut out = i32_le(self.id);
        out.push(self.player_bind_id);
        let mut time_bytes = i32_le(self.time);
        out.append(&mut time_bytes);
        let mut pos_bytes = self.pos.to_vangers_byte();
        out.append(&mut pos_bytes);
        let mut body = vstd::slice::slice_to_vec(self.body.as_slice());
        out.append(&mut body);
        assert(out@ =~= spec_vanject_wire(self@));
        out
    }

    /// Stamps the object with the bound slot of `p`; errs when `p` holds no
    /// slot, leaving the object unchanged.
    pub fn bind_to_player(&mut self, p: &Player) -> (r: Result<(), &'static str>)
        ensures
            r is Ok <==> p.bind is Some,
            r is Ok ==> final(self)@ == (VanjectModel {
                player_bind_id: p.bind->0@,
                ..old(self)@
            }),
            r is Err ==> *final(self) == *old(self),
    {
        match &p.bind {
            Some(bind) => {
                self.player_bind_id = bind.id();
                Ok(())
            },
            None => Err("player not bind"),
        }
    }

    /// The type code field of this object's id, in its shifted position.
    pub fn get_type(&self) -> (r: i32)
        ensures
            r == spec_vanject_type(self.id),
    {
        get_vanject_type(self.id)
    }

    /// The owner station (slot) field of this object's id.
    pub fn get_station(&self) -> (r: i32)
        ensures
            r == spec_station(self.id),
    {
        get_station(self.id)
    }

    /// Whether this object belongs to a player's slot.
    pub fn is_players(&self) -> (r: bool)
        ensures
            r == spec_is_players(self.id),
    {
        is_players_vanject(self.id)
    }

    /// Whether this object is private to a player (inventory or avatar).
    pub fn is_private(&self) -> (r: bool)
        ensures
            r == spec_is_private(self.id),
    {
        is_private_vanject(self.id)
    }

    /// Whether this object lives in a world rather than the global map.
    pub fn is_non_global(&self) -> (r: bool)
        ensures
            r == spec_is_non_global(self.id),
    {
        is_non_global_vanject(self.id)
    }

    /// The world index field of this object's id.
    pub fn get_world(&self) -> (r: i32)
        ensures
            r == spec_world_of_id(self.id),
    {
        get_world(self.id)
    }
}

/// The CREATE_OBJECT payload that describes `m`: id, time, position, radius,
/// for an avatar one screen-height byte, then the body.
pub open spec fn spec_create_bytes(m: VanjectModel, screen_byte: u8) -> Seq<u8> {
    spec_i32_le(m.id) + spec_i32_le(m.time) + spec_pos_le(m.pos) + spec_i16_le(m.radius) + (
    if spec_vanject_type(m.id) == NID_VANGER {
        seq![screen_byte]
    } else {
        Seq::empty()
    }) + m.body
}

/// Parsing the creation bytes of an object gives the object back, with the
/// owner slot cleared to zero as every freshly parsed object has it; the
/// screen-height byte of an avatar is not stored.
pub proof fn lemma_vanject_parse_serialize(m: VanjectModel, screen_byte: u8)
    requires
        m.player_bind_id == 0,
    ensures
        spec_create_ok(spec_create_bytes(m, screen_byte)),
        spec_created(spec_create_bytes(m, screen_byte)) == m,
{
    let s = spec_create_bytes(m, screen_byte);
    crate::utils::lemma_i32_le_inverse(m.id);
    crate::utils::lemma_i32_le_inverse(m.time);
    crate::utils::lemma_i16_le_inverse(m.pos.x);
    crate::utils::lemma_i16_le_inverse(m.pos.y);
    crate::utils::lemma_i16_le_inverse(m.radius);
    assert(s.subrange(0, 4) =~= spec_i32_le(m.id));
    assert(s.subrange(4, 8) =~= spec_i32_le(m.time));
    assert(s.subrange(8, 12).subrange(0, 2) =~= spec_i16_le(m.pos.x));
    assert(s.subrange(8, 12).subrange(2, 4) =~= spec_i16_le(m.pos.y));
    assert(s.subrange(12, 14) =~= spec_i16_le(m.radius));
    if spec_vanject_type(m.id) == NID_VANGER {
        assert(s.skip(15) =~= m.body);
    } else {
        assert(s.skip(14) =~= m.body);
    }
    assert(spec_created(s) =~= m);
}

/// Re-serializing a parsed object in creation form gives the bytes back; for
/// an avatar the fifteenth byte is handed through, since the parse drops it.
pub proof fn lemma_vanject_serialize_parse(s: Seq<u8>)
    requires
        spec_create_ok(s),
    ensures
        spec_vanject_type(spec_created(s).id) == NID_VANGER ==> spec_create_bytes(
            spec_created(s),
            s[14],
        ) == s,
        spec_vanject_type(spec_created(s).id) != NID_VANGER ==> spec_create_bytes(
            spec_created(s),
            0,
        ) == s,
{
    let m = spec_created(s);
    let x = vstd::bytes::spec_u16_from_le_bytes(s.subrange(8, 12).subrange(0, 2));
    vstd::bytes::lemma_auto_spec_u16_to_from_le_bytes();
    vstd::bytes::lemma_auto_spec_u32_to_from_le_bytes();
    assert(s.subrange(0, 4).len() == 4);
    assert(s.subrange(4, 8).len() == 4);
    assert(s.subrange(8, 12).subrange(0, 2).len() == 2);
    assert(s.subrange(8, 12).subrange(2, 4).len() == 2);
    assert(s.subrange(12, 14).len() == 2);
    crate::utils::lemma_sign_le_round_trip_4(s.subrange(0, 4));
    crate::utils::lemma_sign_le_round_trip_4(s.subrange(4, 8));
    crate::utils::lemma_sign_le_round_trip_2(s.subrange(8, 12).subrange(0, 2));
    crate::utils::lemma_sign_le_round_trip_2(s.subrange(8, 12).subrange(2, 4));
    crate::utils::lemma_sign_le_round_trip_2(s.subrange(12, 14));
    if spec_vanject_type(m.id) == NID_VANGER {
        assert(spec_create_bytes(m, s[14]) =~= s);
    } else {
        assert(spec_create_bytes(m, 0) =~= s);
    }
}

} // verus!
