//! The wire protocol: action codes, length-prefixed packets, and the
//! byte-stream framing codec together with its round-trip laws.

use crate::utils::{
    i16_le, lemma_i16_le_inverse, slice_le_to_i16, spec_i16_from_le, spec_i16_le, spec_i16_of_u16,
    spec_u16_of_i16,
};
use vstd::prelude::*;

verus! {

/// Serialization to the game's wire format.
pub trait NetTransportSend {
    fn to_vangers_byte(&self) -> Vec<u8>;
}

/// Deserialization from the game's wire format.
pub trait NetTransportReceive: Sized {
    fn from_slice(slice: &[u8]) -> Option<Self>;
}

/// Both directions of the game's wire format.
pub trait NetTransport: NetTransportSend + NetTransportReceive {

}

impl<T> NetTransport for T where T: NetTransportSend + NetTransportReceive {

}

/// Every packet type that the protocol knows, requests and responses alike.
/// `UNKNOWN` stands for any byte outside the known set; the raw byte is kept
/// in `Packet::real_action` so unknown packets round-trip unchanged.
#[allow(non_camel_case_types)]
#[derive(Copy, Clone, PartialEq, Eq, Structural, Debug)]
pub enum Action {
    UNKNOWN,

    CREATE_OBJECT,
    DELETE_OBJECT,
    UPDATE_OBJECT,
    HIDE_OBJECT,

    // requests to the server
    GAMES_LIST_QUERY,
    TOP_LIST_QUERY,
    ATTACH_TO_GAME,
    RESTORE_CONNECTION,
    CLOSE_SOCKET,
    REGISTER_NAME,
    SERVER_TIME_QUERY,
    SET_WORLD,
    LEAVE_WORLD,
    SET_POSITION,
    TOTAL_PLAYERS_DATA_QUERY,
    SET_GAME_DATA,
    GET_GAME_DATA,
    SET_PLAYER_DATA,
    DIRECT_SENDING,

    // responses to the client
    GAMES_LIST_RESPONSE,
    TOP_LIST_RESPONSE,
    TOTAL_LIST_OF_PLAYERS_DATA,
    ATTACH_TO_GAME_RESPONSE,
    RESTORE_CONNECTION_RESPONSE,
    SERVER_TIME,
    SERVER_TIME_RESPONSE,
    SET_WORLD_RESPONSE,
    GAME_DATA_RESPONSE,
    DIRECT_RECEIVING,
    PLAYERS_NAME,
    PLAYERS_POSITION,
    PLAYERS_WORLD,
    PLAYERS_STATUS,
    PLAYERS_DATA,
    PLAYERS_RATING,
    Z_TIME_RESPONSE,
}

/// The wire byte of each action.
pub open spec fn spec_action_code(a: Action) -> u8 {
    match a {
        Action::UNKNOWN => 0x00,
        Action::CREATE_OBJECT => 0x02,
        Action::DELETE_OBJECT => 0x04,
        Action::UPDATE_OBJECT => 0x08,
        Action::HIDE_OBJECT => 0x0C,
        Action::GAMES_LIST_QUERY => 0x81,
        Action::TOP_LIST_QUERY => 0x82,
        Action::ATTACH_TO_GAME => 0x83,
        Action::RESTORE_CONNECTION => 0x84,
        Action::CLOSE_SOCKET => 0x86,
        Action::REGISTER_NAME => 0x88,
        Action::SERVER_TIME_QUERY => 0x89,
        Action::SET_WORLD => 0x8B,
        Action::LEAVE_WORLD => 0x8C,
        Action::SET_POSITION => 0x8D,
        Action::TOTAL_PLAYERS_DATA_QUERY => 0x91,
        Action::SET_GAME_DATA => 0x92,
        Action::GET_GAME_DATA => 0x93,
        Action::SET_PLAYER_DATA => 0x94,
        Action::DIRECT_SENDING => 0x95,
        Action::GAMES_LIST_RESPONSE => 0xC1,
        Action::TOP_LIST_RESPONSE => 0xC2,
        Action::TOTAL_LIST_OF_PLAYERS_DATA => 0xCC,
        Action::ATTACH_TO_GAME_RESPONSE => 0xC3,
        Action::RESTORE_CONNECTION_RESPONSE => 0xC4,
        Action::SERVER_TIME => 0xC6,
        Action::SERVER_TIME_RESPONSE => 0xC7,
        Action::SET_WORLD_RESPONSE => 0xC8,
        Action::GAME_DATA_RESPONSE => 0xCD,
        Action::DIRECT_RECEIVING => 0xCE,
        Action::PLAYERS_NAME => 0xD5,
        Action::PLAYERS_POSITION => 0xCF,
        Action::PLAYERS_WORLD => 0xD1,
        Action::PLAYERS_STATUS => 0xD2,
        Action::PLAYERS_DATA => 0xD3,
        Action::PLAYERS_RATING => 0xD4,
        Action::Z_TIME_RESPONSE => 0xE3,
    }
}

/// The action a wire byte stands for, `None` for a byte outside the known set.
pub open spec fn spec_action_from_u8(b: u8) -> Option<Action> {
    if b == 0x00 {
        Some(Action::UNKNOWN)
    } else if b == 0x02 {
        Some(Action::CREATE_OBJECT)
    } else if b == 0x04 {
        Some(Action::DELETE_OBJECT)
    } else if b == 0x08 {
        Some(Action::UPDATE_OBJECT)
    } else if b == 0x0C {
        Some(Action::HIDE_OBJECT)
    } else if b == 0x81 {
        Some(Action::GAMES_LIST_QUERY)
    } else if b == 0x82 {
        Some(Action::TOP_LIST_QUERY)
    } else if b == 0x83 {
        Some(Action::ATTACH_TO_GAME)
    } else if b == 0x84 {
        Some(Action::RESTORE_CONNECTION)
    } else if b == 0x86 {
        Some(Action::CLOSE_SOCKET)
    } else if b == 0x88 {
        Some(Action::REGISTER_NAME)
    } else if b == 0x89 {
        Some(Action::SERVER_TIME_QUERY)
    } else if b == 0x8B {
        Some(Action::SET_WORLD)
    } else if b == 0x8C {
        Some(Action::LEAVE_WORLD)
    } else if b == 0x8D {
        Some(Action::SET_POSITION)
    } else if b == 0x91 {
        Some(Action::TOTAL_PLAYERS_DATA_QUERY)
    } else if b == 0x92 {
        Some(Action::SET_GAME_DATA)
    } else if b == 0x93 {
        Some(Action::GET_GAME_DATA)
    } else if b == 0x94 {
        Some(Action::SET_PLAYER_DATA)
    } else if b == 0x95 {
        Some(Action::DIRECT_SENDING)
    } else if b == 0xC1 {
        Some(Action::GAMES_LIST_RESPONSE)
    } else if b == 0xC2 {
        Some(Action::TOP_LIST_RESPONSE)
    } else if b == 0xCC {
        Some(Action::TOTAL_LIST_OF_PLAYERS_DATA)
    } else if b == 0xC3 {
        Some(Action::ATTACH_TO_GAME_RESPONSE)
    } else if b == 0xC4 {
        Some(Action::RESTORE_CONNECTION_RESPONSE)
    } else if b == 0xC6 {
        Some(Action::SERVER_TIME)
    } else if b == 0xC7 {
        Some(Action::SERVER_TIME_RESPONSE)
    } else if b == 0xC8 {
        Some(Action::SET_WORLD_RESPONSE)
    } else if b == 0xCD {
        Some(Action::GAME_DATA_RESPONSE)
    } else if b == 0xCE {
        Some(Action::DIRECT_RECEIVING)
    } else if b == 0xD5 {
        Some(Action::PLAYERS_NAME)
    } else if b == 0xCF {
        Some(Action::PLAYERS_POSITION)
    } else if b == 0xD1 {
        Some(Action::PLAYERS_WORLD)
    } else if b == 0xD2 {
        Some(Action::PLAYERS_STATUS)
    } else if b == 0xD3 {
        Some(Action::PLAYERS_DATA)
    } else if b == 0xD4 {
        Some(Action::PLAYERS_RATING)
    } else if b == 0xE3 {
        Some(Action::Z_TIME_RESPONSE)
    } else {
        None
    }
}

/// The action a wire byte decodes to: unknown bytes fall back to `UNKNOWN`.
pub open spec fn spec_action_of_code(b: u8) -> Action {
    match spec_action_from_u8(b) {
        Some(a) => a,
        None => Action::UNKNOWN,
    }
}

impl Action {
    /// The wire byte of this action.
    pub fn to_u8(&self) -> (r: u8)
        ensures
            r == spec_action_code(*self),
    {
        match self {
            Action::UNKNOWN => 0x00,
            Action::CREATE_OBJECT => 0x02,
            Action::DELETE_OBJECT => 0x04,
            Action::UPDATE_OBJECT => 0x08,
            Action::HIDE_OBJECT => 0x0C,
            Action::GAMES_LIST_QUERY => 0x81,
            Action::TOP_LIST_QUERY => 0x82,
            Action::ATTACH_TO_GAME => 0x83,
            Action::RESTORE_CONNECTION => 0x84,
            Action::CLOSE_SOCKET => 0x86,
            Action::REGISTER_NAME => 0x88,
            Action::SERVER_TIME_QUERY => 0x89,
            Action::SET_WORLD => 0x8B,
            Action::LEAVE_WORLD => 0x8C,
            Action::SET_POSITION => 0x8D,
            Action::TOTAL_PLAYERS_DATA_QUERY => 0x91,
            Action::SET_GAME_DATA => 0x92,
            Action::GET_GAME_DATA => 0x93,
            Action::SET_PLAYER_DATA => 0x94,
            Action::DIRECT_SENDING => 0x95,
            Action::GAMES_LIST_RESPONSE => 0xC1,
            Action::TOP_LIST_RESPONSE => 0xC2,
            Action::TOTAL_LIST_OF_PLAYERS_DATA => 0xCC,
            Action::ATTACH_TO_GAME_RESPONSE => 0xC3,
            Action::RESTORE_CONNECTION_RESPONSE => 0xC4,
            Action::SERVER_TIME => 0xC6,
            Action::SERVER_TIME_RESPONSE => 0xC7,
            Action::SET_WORLD_RESPONSE => 0xC8,
            Action::GAME_DATA_RESPONSE => 0xCD,
            Action::DIRECT_RECEIVING => 0xCE,
            Action::PLAYERS_NAME => 0xD5,
            Action::PLAYERS_POSITION => 0xCF,
            Action::PLAYERS_WORLD => 0xD1,
            Action::PLAYERS_STATUS => 0xD2,
            Action::PLAYERS_DATA => 0xD3,
            Action::PLAYERS_RATING => 0xD4,
            Action::Z_TIME_RESPONSE => 0xE3,
        }
    }

    /// The action a wire byte stands for, `None` for an unassigned byte.
    pub fn from_u8(b: u8) -> (r: Option<Action>)
        ensures
            r == spec_action_from_u8(b),
    {
        if b == 0x00 {
            Some(Action::UNKNOWN)
        } else if b == 0x02 {
            Some(Action::CREATE_OBJECT)
        } else if b == 0x04 {
            Some(Action::DELETE_OBJECT)
        } else if b == 0x08 {
            Some(Action::UPDATE_OBJECT)
        } else if b == 0x0C {
            Some(Action::HIDE_OBJECT)
        } else if b == 0x81 {
            Some(Action::GAMES_LIST_QUERY)
        } else if b == 0x82 {
            Some(Action::TOP_LIST_QUERY)
        } else if b == 0x83 {
            Some(Action::ATTACH_TO_GAME)
        } else if b == 0x84 {
            Some(Action::RESTORE_CONNECTION)
        } else if b == 0x86 {
            Some(Action::CLOSE_SOCKET)
        } else if b == 0x88 {
            Some(Action::REGISTER_NAME)
        } else if b == 0x89 {
            Some(Action::SERVER_TIME_QUERY)
        } else if b == 0x8B {
            Some(Action::SET_WORLD)
        } else if b == 0x8C {
            Some(Action::LEAVE_WORLD)
        } else if b == 0x8D {
            Some(Action::SET_POSITION)
        } else if b == 0x91 {
            Some(Action::TOTAL_PLAYERS_DATA_QUERY)
        } else if b == 0x92 {
            Some(Action::SET_GAME_DATA)
        } else if b == 0x93 {
            Some(Action::GET_GAME_DATA)
        } else if b == 0x94 {
            Some(Action::SET_PLAYER_DATA)
        } else if b == 0x95 {
            Some(Action::DIRECT_SENDING)
        } else if b == 0xC1 {
            Some(Action::GAMES_LIST_RESPONSE)
        } else if b == 0xC2 {
            Some(Action::TOP_LIST_RESPONSE)
        } else if b == 0xCC {
            Some(Action::TOTAL_LIST_OF_PLAYERS_DATA)
        } else if b == 0xC3 {
            Some(Action::ATTACH_TO_GAME_RESPONSE)
        } else if b == 0xC4 {
            Some(Action::RESTORE_CONNECTION_RESPONSE)
        } else if b == 0xC6 {
            Some(Action::SERVER_TIME)
        } else if b == 0xC7 {
            Some(Action::SERVER_TIME_RESPONSE)
        } else if b == 0xC8 {
            Some(Action::SET_WORLD_RESPONSE)
        } else if b == 0xCD {
            Some(Action::GAME_DATA_RESPONSE)
        } else if b == 0xCE {
            Some(Action::DIRECT_RECEIVING)
        } else if b == 0xD5 {
            Some(Action::PLAYERS_NAME)
        } else if b == 0xCF {
            Some(Action::PLAYERS_POSITION)
        } else if b == 0xD1 {
            Some(Action::PLAYERS_WORLD)
        } else if b == 0xD2 {
            Some(Action::PLAYERS_STATUS)
        } else if b == 0xD3 {
            Some(Action::PLAYERS_DATA)
        } else if b == 0xD4 {
            Some(Action::PLAYERS_RATING)
        } else if b == 0xE3 {
            Some(Action::Z_TIME_RESPONSE)
        } else {
            None
        }
    }

    /// The response action of a request action, `None` where the protocol
    /// defines no response.
    pub open spec fn spec_request_to_response(a: Action) -> Option<Action> {
        match a {
            Action::GAMES_LIST_QUERY => Some(Action::GAMES_LIST_RESPONSE),
            Action::ATTACH_TO_GAME => Some(Action::ATTACH_TO_GAME_RESPONSE),
            Action::SERVER_TIME_QUERY => Some(Action::SERVER_TIME),
            Action::TOTAL_PLAYERS_DATA_QUERY => Some(Action::TOTAL_LIST_OF_PLAYERS_DATA),
            Action::REGISTER_NAME => Some(Action::PLAYERS_NAME),
            Action::SET_PLAYER_DATA => Some(Action::PLAYERS_DATA),
            Action::GET_GAME_DATA => Some(Action::GAME_DATA_RESPONSE),
            Action::SET_WORLD => Some(Action::SET_WORLD_RESPONSE),
            Action::DIRECT_SENDING => Some(Action::DIRECT_RECEIVING),
            _ => None,
        }
    }

    /// Converts `action` from request-type to response-type if possible.
    pub fn request_to_response(&self) -> (r: Option<Action>)
        ensures
            r == Self::spec_request_to_response(*self),
    {
        match self {
            Action::GAMES_LIST_QUERY => Some(Action::GAMES_LIST_RESPONSE),
            Action::ATTACH_TO_GAME => Some(Action::ATTACH_TO_GAME_RESPONSE),
            Action::SERVER_TIME_QUERY => Some(Action::SERVER_TIME),
            Action::TOTAL_PLAYERS_DATA_QUERY => Some(Action::TOTAL_LIST_OF_PLAYERS_DATA),
            Action::REGISTER_NAME => Some(Action::PLAYERS_NAME),
            Action::SET_PLAYER_DATA => Some(Action::PLAYERS_DATA),
            Action::GET_GAME_DATA => Some(Action::GAME_DATA_RESPONSE),
            Action::SET_WORLD => Some(Action::SET_WORLD_RESPONSE),
            Action::DIRECT_SENDING => Some(Action::DIRECT_RECEIVING),
            _ => None,
        }
    }
}

/// Decoding a wire byte and re-encoding the decoded action gives the byte
/// back, for every byte whose decoding is a known, non-`UNKNOWN` action.
pub proof fn lemma_known_code_round_trip(b: u8)
    ensures
        spec_action_of_code(b) != Action::UNKNOWN ==> spec_action_code(spec_action_of_code(b)) == b,
{
}

/// Encoding an action and decoding the byte gives the action back.
pub proof fn lemma_action_code_round_trip(a: Action)
    ensures
        spec_action_of_code(spec_action_code(a)) == a,
{
}

/// The mathematical value of a `Packet`.
#[verifier::ext_equal]
pub ghost struct PacketModel {
    pub event_size: i16,
    pub action: Action,
    pub real_action: u8,
    pub data: Seq<u8>,
}

/// Represents a packet of an event (communication data between the server
/// and its clients).
#[derive(Debug)]
pub struct Packet {
    /// Size of the packet as the wire declared it: `1 + data.len()` for every
    /// packet built by this library; for a decoded packet, whatever the first
    /// two bytes of the frame held.
    pub event_size: i16,
    /// The packet type.
    pub action: Action,
    /// The packet type as the raw wire byte.
    pub real_action: u8,
    /// The payload, every frame byte after the action byte.
    pub data: Vec<u8>,
}

impl View for Packet {
    type V = PacketModel;

    open spec fn view(&self) -> PacketModel {
        PacketModel {
            event_size: self.event_size,
            action: self.action,
            real_action: self.real_action,
            data: self.data@,
        }
    }
}

impl DeepView for Packet {
    type V = PacketModel;

    open spec fn deep_view(&self) -> PacketModel {
        self.view()
    }
}

/// The action byte that `spec_encode` emits: the raw byte for an unknown
/// action, the action's own code otherwise.
pub open spec fn spec_wire_action_byte(m: PacketModel) -> u8 {
    if m.action == Action::UNKNOWN {
        m.real_action
    } else {
        spec_action_code(m.action)
    }
}

/// The frame bytes of a packet: two little-endian length bytes counting the
/// action byte and the payload, then the action byte, then the payload.
pub open spec fn spec_encode(m: PacketModel) -> Seq<u8> {
    spec_i16_le((m.data.len() + 1) as i16) + seq![spec_wire_action_byte(m)] + m.data
}

/// The packet value of the empty (default) packet.
pub open spec fn spec_default_packet() -> PacketModel {
    PacketModel { event_size: 1, action: Action::UNKNOWN, real_action: 0, data: Seq::empty() }
}

/// The packet a single frame's bytes decode to; frames of fewer than three
/// bytes decode to the default packet.
pub open spec fn spec_decode(b: Seq<u8>) -> PacketModel {
    if b.len() < 3 {
        spec_default_packet()
    } else {
        PacketModel {
            event_size: spec_i16_from_le(b.subrange(0, 2)),
            action: spec_action_of_code(b[2]),
            real_action: b[2],
            data: b.skip(3),
        }
    }
}

/// A packet is well formed when its declared size agrees with its payload,
/// the frame fits the signed 16-bit length field, and its action agrees with
/// its raw action byte.
pub open spec fn packet_wf(m: PacketModel) -> bool {
    &&& m.data.len() + 1 <= 32767
    &&& m.event_size == m.data.len() + 1
    &&& m.action == spec_action_of_code(m.real_action)
}

impl Packet {
    /// Returns the `Packet` as the array of bytes that goes out on the wire.
    pub fn as_bytes(&self) -> (r: Vec<u8>)
        requires
            self.data@.len() + 1 <= 32767,
        ensures
            r@ == spec_encode(self@),
    {
        let action: u8 = if self.action == Action::UNKNOWN {
            self.real_action
        } else {
            self.action.to_u8()
        };

        let event_size: i16 = (self.data.len() + 1) as i16;
        let mut out = i16_le(event_size);
        out.push(action);
        let mut payload = vstd::slice::slice_to_vec(self.data.as_slice());
        out.append(&mut payload);
        assert(out@ =~= spec_encode(self@));
        out
    }

    /// Returns a new `Packet` with the response action that answers this
    /// packet's request action, carrying `data`; `None` when the action has
    /// no response or `data` does not fit a frame.
    pub fn create_answer(&self, data: Vec<u8>) -> (r: Option<Packet>)
        ensures
            r is Some <==> (Action::spec_request_to_response(self@.action) is Some
                && data@.len() + 1 <= 32767),
            r is Some ==> {
                let p = r->0@;
                &&& p.action == Action::spec_request_to_response(self@.action)->0
                &&& p.real_action == spec_action_code(p.action)
                &&& p.data == data@
                &&& p.event_size == data@.len() + 1
                &&& packet_wf(p)
            },
    {
        match self.action.request_to_response() {
            None => None,
            Some(action) => {
                if data.len() <= 32766 {
                    let event_size: i16 = (data.len() + 1) as i16;
                    proof {
                        lemma_action_code_round_trip(action);
                    }
                    Some(Packet { action, real_action: action.to_u8(), data, event_size })
                } else {
                    None
                }
            },
        }
    }

    /// Builds a packet of the given action around `data`.
    pub fn new(action: Action, data: &[u8]) -> (r: Packet)
        requires
            data@.len() + 1 <= 32767,
        ensures
            r@.action == action,
            r@.real_action == spec_action_code(action),
            r@.data == data@,
            r@.event_size == data@.len() + 1,
            packet_wf(r@),
    {
        let event_size: i16 = (data.len() + 1) as i16;
        proof {
            lemma_action_code_round_trip(action);
        }
        Packet { action, real_action: action.to_u8(), data: vstd::slice::slice_to_vec(data), event_size }
    }

    /// Decodes one frame's bytes; fewer than three bytes give the default
    /// packet.
    pub fn from_slice(buff: &[u8]) -> (r: Packet)
        ensures
            r@ == spec_decode(buff@),
    {
        if buff.len() < 3 {
            Self::default()
        } else {
            let event_size = slice_le_to_i16(&buff[0..2]);
            let real_action = buff[2];
            let action = match Action::from_u8(real_action) {
                Some(a) => a,
                None => Action::UNKNOWN,
            };
            let data = vstd::slice::slice_to_vec(vstd::slice::slice_subrange(buff, 3, buff.len()));
            Packet { event_size, action, real_action, data }
        }
    }
}

impl Clone for Packet {
    /// A clone carries the same packet value.
    fn clone(&self) -> (r: Self)
        ensures
            r@ == self@,
    {
        Packet {
            event_size: self.event_size,
            action: self.action,
            real_action: self.real_action,
            data: vstd::slice::slice_to_vec(self.data.as_slice()),
        }
    }
}

impl Default for Packet {
    /// The empty packet: an `UNKNOWN` action with no payload.
    fn default() -> (r: Self)
        ensures
            r@ == spec_default_packet(),
    {
        Packet { event_size: 1, real_action: 0x00, action: Action::UNKNOWN, data: Vec::new() }
    }
}

/// What greedy framing makes of a byte buffer: the packets of the complete
/// frames, the retained tail that awaits more bytes, and whether a negative
/// length byte pair was met (a fatal frame error that drops the rest).
#[verifier::ext_equal]
pub ghost struct ExtractModel {
    pub packets: Seq<PacketModel>,
    pub rest: Seq<u8>,
    pub fatal: bool,
}

/// Greedy framing of a byte buffer: repeatedly read a two-byte length, split
/// off that frame and decode it; keep a too-short tail for the next read; a
/// negative length is fatal and drops the remaining buffer.
pub open spec fn spec_extract(b: Seq<u8>) -> ExtractModel
    decreases b.len(),
{
    if b.len() < 2 {
        ExtractModel { packets: Seq::empty(), rest: b, fatal: false }
    } else {
        let l = spec_i16_from_le(b.subrange(0, 2));
        if l < 0 {
            ExtractModel { packets: Seq::empty(), rest: Seq::empty(), fatal: true }
        } else if l + 2 > b.len() {
            ExtractModel { packets: Seq::empty(), rest: b, fatal: false }
        } else {
            let r = spec_extract(b.skip(l + 2));
            ExtractModel {
                packets: seq![spec_decode(b.take(l + 2))] + r.packets,
                rest: r.rest,
                fatal: r.fatal,
            }
        }
    }
}

/// Splits a byte buffer into packets as `spec_extract` describes: the
/// complete frames decoded in order, then the retained tail, then whether a
/// fatal negative length was met.
pub fn extract_packets(buf: &[u8]) -> (r: (Vec<Packet>, Vec<u8>, bool))
    ensures
        r.0@.map_values(|p: Packet| p@) == spec_extract(buf@).packets,
        r.1@ == spec_extract(buf@).rest,
        r.2 == spec_extract(buf@).fatal,
{
    let mut pkts: Vec<Packet> = Vec::new();
    let mut offset: usize = 0;
    assert(buf@.skip(0) =~= buf@);
    loop
        invariant
            offset <= buf@.len(),
            spec_extract(buf@).packets =~= pkts@.map_values(|p: Packet| p@) + spec_extract(
                buf@.skip(offset as int),
            ).packets,
            spec_extract(buf@).rest == spec_extract(buf@.skip(offset as int)).rest,
            spec_extract(buf@).fatal == spec_extract(buf@.skip(offset as int)).fatal,
        decreases buf@.len() - offset,
    {
        let ghost tail = buf@.skip(offset as int);
        if buf.len() - offset < 2 {
            let rest = vstd::slice::slice_to_vec(
                vstd::slice::slice_subrange(buf, offset, buf.len()),
            );
            assert(pkts@.map_values(|p: Packet| p@) + spec_extract(tail).packets =~= pkts@
                .map_values(|p: Packet| p@));
            return (pkts, rest, false);
        }
        let l = slice_le_to_i16(&buf[offset..offset + 2]);
        assert(buf@.subrange(offset as int, offset as int + 2) =~= tail.subrange(0, 2));
        if l < 0 {
            assert(pkts@.map_values(|p: Packet| p@) + spec_extract(tail).packets =~= pkts@
                .map_values(|p: Packet| p@));
            return (pkts, Vec::new(), true);
        }
        let frame_len = (l as usize) + 2;
        if frame_len > buf.len() - offset {
            let rest = vstd::slice::slice_to_vec(
                vstd::slice::slice_subrange(buf, offset, buf.len()),
            );
            assert(pkts@.map_values(|p: Packet| p@) + spec_extract(tail).packets =~= pkts@
                .map_values(|p: Packet| p@));
            return (pkts, rest, false);
        }
        let frame = vstd::slice::slice_subrange(buf, offset, offset + frame_len);
        assert(frame@ =~= tail.take(l + 2));
        let p = Packet::from_slice(frame);
        pkts.push(p);
        offset = offset + frame_len;
        proof {
            assert(buf@.skip(offset as int) =~= tail.skip(l + 2));
            assert(pkts@.map_values(|q: Packet| q@) =~= pkts@.map_values(|q: Packet| q@).take(
                pkts@.len() - 1,
            ) + seq![p@]);
        }
    }
}

/// A byte stream is well formed when it splits exactly into frames, each with
/// a length of at least one (so each frame carries an action byte).
pub open spec fn stream_wf(b: Seq<u8>) -> bool
    decreases b.len(),
{
    ||| b.len() == 0
    ||| {
        &&& b.len() >= 3
        &&& spec_i16_from_le(b.subrange(0, 2)) >= 1
        &&& spec_i16_from_le(b.subrange(0, 2)) + 2 <= b.len()
        &&& stream_wf(b.skip(spec_i16_from_le(b.subrange(0, 2)) + 2))
    }
}

/// The concatenation of the frame bytes of a sequence of packets.
pub open spec fn spec_encode_all(ps: Seq<PacketModel>) -> Seq<u8>
    decreases ps.len(),
{
    if ps.len() == 0 {
        Seq::empty()
    } else {
        spec_encode(ps[0]) + spec_encode_all(ps.skip(1))
    }
}

/// Re-encoding one well-formed frame's decoded packet gives the frame back.
proof fn lemma_encode_decode_frame(f: Seq<u8>)
    requires
        f.len() >= 3,
        spec_i16_from_le(f.subrange(0, 2)) == f.len() - 2,
    ensures
        spec_encode(spec_decode(f)) == f,
{
    let m = spec_decode(f);
    assert(m.data =~= f.skip(3));
    assert(m.data.len() == f.len() - 3);
    let n = (m.data.len() + 1) as i16;
    let u = vstd::bytes::spec_u16_from_le_bytes(f.subrange(0, 2));
    vstd::bytes::lemma_auto_spec_u16_to_from_le_bytes();
    assert(f.subrange(0, 2).len() == 2);
    assert(vstd::bytes::spec_u16_to_le_bytes(u).len() == 2);
    assert(spec_i16_of_u16(u) == n);
    assert(spec_u16_of_i16(spec_i16_of_u16(u)) == u);
    assert(spec_i16_le(n) == f.subrange(0, 2));
    if m.action == Action::UNKNOWN {
        assert(spec_wire_action_byte(m) == f[2]);
    } else {
        lemma_known_code_round_trip(f[2]);
        assert(spec_wire_action_byte(m) == f[2]);
    }
    assert(spec_encode(m) =~= f);
}

/// Framing a well-formed byte stream meets no fatal error, retains no tail,
/// and re-encoding the decoded packets in order yields the stream back.
pub proof fn lemma_stream_round_trip(b: Seq<u8>)
    requires
        stream_wf(b),
    ensures
        !spec_extract(b).fatal,
        spec_extract(b).rest == Seq::<u8>::empty(),
        spec_encode_all(spec_extract(b).packets) == b,
    decreases b.len(),
{
    if b.len() == 0 {
        assert(spec_extract(b).rest =~= Seq::<u8>::empty());
        assert(spec_encode_all(spec_extract(b).packets) =~= b);
    } else {
        let l = spec_i16_from_le(b.subrange(0, 2));
        let frame = b.take(l + 2);
        let tail = b.skip(l + 2);
        lemma_stream_round_trip(tail);
        assert(frame.subrange(0, 2) =~= b.subrange(0, 2));
        lemma_encode_decode_frame(frame);
        let r = spec_extract(tail);
        let all = spec_extract(b);
        assert(all.packets == seq![spec_decode(frame)] + r.packets);
        assert(all.packets.skip(1) =~= r.packets);
        assert(all.packets[0] == spec_decode(frame));
        assert(spec_encode_all(all.packets) == spec_encode(spec_decode(frame)) + spec_encode_all(
            r.packets,
        ));
        assert(spec_encode(spec_decode(frame)) + spec_encode_all(r.packets) =~= b);
    }
}

/// Decoding the frame bytes of a well-formed packet gives the packet back.
pub proof fn lemma_decode_encode(m: PacketModel)
    requires
        packet_wf(m),
    ensures
        spec_decode(spec_encode(m)) == m,
{
    let n = (m.data.len() + 1) as i16;
    let b = spec_encode(m);
    lemma_i16_le_inverse(n);
    assert(b.subrange(0, 2) =~= spec_i16_le(n));
    assert(b.len() == m.data.len() + 3);
    assert(b[2] == spec_wire_action_byte(m));
    assert(b.skip(3) =~= m.data);
    if m.action == Action::UNKNOWN {
        assert(spec_decode(b) =~= m);
    } else {
        lemma_known_code_round_trip(m.real_action);
        assert(spec_action_code(m.action) == m.real_action);
        assert(spec_decode(b) =~= m);
    }
}

} // verus!
