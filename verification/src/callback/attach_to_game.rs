//! ATTACH_TO_GAME: puts the caller into a session, creating one when id zero
//! is asked for, and replays the session's standing objects to the caller.

use crate::callback::set_world::spec_packets_sends;
use crate::callback::update_object::spec_update_packet;
use crate::callback::{OnUpdateError, OnUpdateOk};
use crate::client::ClientID;
use crate::game::GameModel;
use crate::games::{is_first_game_idx, is_first_game_of_client, lemma_wf_update_add_client};
use crate::player::{Player, PlayerModel, Status};
use crate::protocol::{Action, Packet, PacketModel};
use crate::server::{
    spec_outbox_view, spec_sends, spec_targets, ClientInfoModel, NotifyScope, Server,
};
use crate::utils::{slice_le_to_i32, spec_i32_from_le, spec_u32_of_i32, u32_of_i32};
use crate::vanject::{spec_station, spec_vanject_wire, VanjectModel};
use vstd::prelude::*;

verus! {

/// Why ATTACH_TO_GAME was refused.
#[derive(Debug)]
pub enum AttachToGameError {
    /// No session of the asked-for id exists.
    NotExists(u32),
    /// The payload is not exactly the four-byte session id.
    IdEmpty,
    /// The session holds 31 bound players already.
    Full(u32),
    /// The caller is already in a session; a client owns at most one player.
    AlreadyAttached(ClientID),
}

/// The low sixteen bits of an object id.
pub open spec fn spec_low16(id: i32) -> u16 {
    (crate::utils::spec_u32_of_i32(id) & 0xFFFF) as u16
}

/// The type-code index of an object id, six bits wide.
pub open spec fn spec_type_index(id: i32) -> int {
    ((crate::utils::spec_u32_of_i32(id) >> 16) & 63) as int
}

/// The largest low-sixteen-bit object number that slot `slot` owns under
/// type index `idx`, or zero when it owns none.
pub open spec fn spec_offset_val(vs: Seq<VanjectModel>, slot: u8, idx: int) -> u16
    decreases vs.len(),
{
    if vs.len() == 0 {
        0u16
    } else {
        let p = spec_offset_val(vs.drop_last(), slot, idx);
        let v = vs.last();
        if spec_station(v.id) == slot as i32 && spec_type_index(v.id) == idx && spec_low16(v.id)
            > p {
            spec_low16(v.id)
        } else {
            p
        }
    }
}

/// The wire form of one offset: zero stays zero, anything else is its
/// successor, wrapping.
pub open spec fn spec_offset_wire(o: u16) -> u16 {
    if o == 0 {
        0u16
    } else {
        ((o + 1) % 0x1_0000) as u16
    }
}

/// The first `n` of the sixteen offset fields, as little-endian bytes.
pub open spec fn spec_offsets_bytes_upto(vs: Seq<VanjectModel>, slot: u8, n: int) -> Seq<u8>
    decreases n,
{
    if n <= 0 {
        Seq::empty()
    } else {
        spec_offsets_bytes_upto(vs, slot, n - 1) + vstd::bytes::spec_u16_to_le_bytes(
            spec_offset_wire(spec_offset_val(vs, slot, n - 1)),
        )
    }
}

/// The offset fields take two bytes each.
pub proof fn lemma_offsets_bytes_len(vs: Seq<VanjectModel>, slot: u8, n: int)
    requires
        n >= 0,
    ensures
        spec_offsets_bytes_upto(vs, slot, n).len() == 2 * n,
    decreases n,
{
    vstd::bytes::lemma_auto_spec_u16_to_from_le_bytes();
    if n > 0 {
        lemma_offsets_bytes_len(vs, slot, n - 1);
    }
}

/// The ATTACH_TO_GAME_RESPONSE payload: session id, whether configured, the
/// session's age in seconds, the granted slot, then sixteen object-number
/// offsets.
pub open spec fn spec_attach_answer_data(
    g: GameModel,
    configured: u8,
    birth: u32,
    slot: u8,
) -> Seq<u8> {
    vstd::bytes::spec_u32_to_le_bytes(g.id) + seq![configured]
        + vstd::bytes::spec_u32_to_le_bytes(birth) + seq![slot] + spec_offsets_bytes_upto(
        g.vanjects,
        slot,
        16,
    )
}

/// The Z_TIME_RESPONSE payload: the wall-clock seconds.
pub open spec fn spec_ztime_packet(unix: u32) -> PacketModel {
    PacketModel {
        event_size: 5,
        action: Action::Z_TIME_RESPONSE,
        real_action: 0xE3,
        data: vstd::bytes::spec_u32_to_le_bytes(unix),
    }
}

/// The replay packets for every stored object, in storage order; an
/// oversized object is dropped rather than framed.
pub open spec fn spec_all_replay_packets(vs: Seq<VanjectModel>) -> Seq<PacketModel>
    decreases vs.len(),
{
    if vs.len() == 0 {
        Seq::empty()
    } else {
        spec_all_replay_packets(vs.drop_last()) + (if spec_vanject_wire(vs.last()).len() + 2
            <= 32767 {
            seq![spec_update_packet(vs.last())]
        } else {
            Seq::empty()
        })
    }
}

/// Whether the client table knows `cid` with a protocol version above one.
pub open spec fn spec_protocol_above_one(clients: Seq<ClientInfoModel>, cid: ClientID) -> bool {
    exists|i: int|
        0 <= i < clients.len() && (#[trigger] clients[i]).id == cid && clients[i].protocol > 1
}

/// The bound player a fresh attachment stores.
pub open spec fn spec_attached_player(cid: ClientID, slot: u8) -> PlayerModel {
    PlayerModel {
        client_id: cid,
        bind: Some(slot),
        auth: None,
        body: None,
        world: None,
        pos: crate::vanject::Pos { x: 0i16, y: 0i16 },
        status: Status::INITIAL,
    }
}

/// Everything this handler's contract states, over the states before and
/// after the call, the packet value, the caller, and the result with its
/// success payload erased.
pub open spec fn spec_attach_to_game_post(
    pre: Server,
    post: Server,
    pm: PacketModel,
    client_id: ClientID,
    r: Result<(), OnUpdateError>,
) -> bool {
    &&& (r matches Err(e) ==> !(e is NotImplementedAction))
    &&& (pre.wf() ==> post.wf())
    &&& (post.clients == pre.clients)
    &&& (post.port == pre.port)
    &&& (post.uptime == pre.uptime)
    &&& (pm.data.len() != 4 ==> (r matches Err(OnUpdateError::AttachToGameError(
                AttachToGameError::IdEmpty,
            )) && post == pre))
    &&& (pm.data.len() == 4 && pre.games.spec_has_client(client_id) ==> (r
                matches Err(OnUpdateError::AttachToGameError(AttachToGameError::AlreadyAttached(
                    c,
                ))) && c == client_id && post == pre))
    &&& (pm.data.len() == 4 && !pre.games.spec_has_client(client_id) ==> {
                let req = spec_i32_from_le(pm.data);
                let counter_next: u32 = if pre.games_id_uniq == u32::MAX {
                    0u32
                } else {
                    (pre.games_id_uniq + 1) as u32
                };
                let tid: u32 = if req == 0 {
                    counter_next
                } else {
                    spec_u32_of_i32(req)
                };
                &&& (req == 0 ==> post.games_id_uniq == counter_next)
                &&& (req != 0 ==> post.games_id_uniq == pre.games_id_uniq)
                &&& (req != 0 && !pre.games.spec_has_game_id(tid) ==> (r matches Err(
                    OnUpdateError::AttachToGameError(AttachToGameError::NotExists(t)),
                ) && t == tid && post.games.games() == pre.games.games() && post.outbox == pre.outbox))
                &&& (req == 0 && !pre.games.spec_has_game_id(tid) && pm.action
                    == Action::ATTACH_TO_GAME ==> {
                    let g2 = GameModel {
                        id: tid,
                        name: Seq::<u8>::empty(),
                        players: seq![spec_attached_player(client_id, 1u8)],
                        worlds: Seq::empty(),
                        config: None,
                        vanjects: Seq::empty(),
                    };
                    &&& r is Ok
                    &&& post.games.games() == pre.games.games().push(g2)
                    &&& exists|birth: u32, unix: u32|
                        #![trigger vstd::bytes::spec_u32_to_le_bytes(birth), spec_ztime_packet(unix)]
                        spec_outbox_view(post.outbox@) == spec_outbox_view(
                            pre.outbox@,
                        ) + spec_sends(
                            pre.clients.deep_view(),
                            spec_targets(g2, NotifyScope::Only(client_id)),
                            PacketModel {
                                event_size: 43,
                                action: Action::ATTACH_TO_GAME_RESPONSE,
                                real_action: 0xC3,
                                data: spec_attach_answer_data(g2, 0u8, birth, 1u8),
                            },
                        ) + (if spec_protocol_above_one(pre.clients.deep_view(), client_id) {
                            spec_sends(
                                pre.clients.deep_view(),
                                spec_targets(g2, NotifyScope::Only(client_id)),
                                spec_ztime_packet(unix),
                            )
                        } else {
                            Seq::empty()
                        })
                })
                &&& forall|gidx: int|
                    #[trigger] is_first_game_idx(pre.games.games(), tid, gidx)
                        && pm.action == Action::ATTACH_TO_GAME ==> {
                        let g = pre.games.games()[gidx];
                        if forall|k: u8| 1 <= k <= 31 ==> g.spec_has_bind(k) {
                            (r matches Err(OnUpdateError::AttachToGameError(
                                AttachToGameError::Full(t),
                            )) && t == tid && post.games.games() == pre.games.games() && post.outbox == pre.outbox)
                        } else {
                            exists|slot: u8|
                                {
                                    &&& 1 <= slot <= 31
                                    &&& !g.spec_has_bind(slot)
                                    &&& (forall|k: u8| 1 <= k < slot ==> g.spec_has_bind(k))
                                    &&& r is Ok
                                    &&& post.games.games() == pre.games.games().update(
                                        gidx,
                                        GameModel {
                                            players: g.players.push(
                                                spec_attached_player(client_id, slot),
                                            ),
                                            ..g
                                        },
                                    )
                                    &&& exists|birth: u32, unix: u32|
                                        #![trigger vstd::bytes::spec_u32_to_le_bytes(birth), spec_ztime_packet(unix)]
                                        spec_outbox_view(post.outbox@) == spec_outbox_view(
                                            pre.outbox@,
                                        ) + spec_sends(
                                            pre.clients.deep_view(),
                                            spec_targets(
                                                post.games.games()[gidx],
                                                NotifyScope::Only(client_id),
                                            ),
                                            PacketModel {
                                                event_size: 43,
                                                action: Action::ATTACH_TO_GAME_RESPONSE,
                                                real_action: 0xC3,
                                                data: spec_attach_answer_data(
                                                    post.games.games()[gidx],
                                                    if g.config is Some {
                                                        1u8
                                                    } else {
                                                        0u8
                                                    },
                                                    birth,
                                                    slot,
                                                ),
                                            },
                                        ) + (if spec_protocol_above_one(
                                            pre.clients.deep_view(),
                                            client_id,
                                        ) {
                                            spec_sends(
                                                pre.clients.deep_view(),
                                                spec_targets(
                                                    post.games.games()[gidx],
                                                    NotifyScope::Only(client_id),
                                                ),
                                                spec_ztime_packet(unix),
                                            )
                                        } else {
                                            Seq::empty()
                                        }) + spec_packets_sends(
                                            pre.clients.deep_view(),
                                            spec_targets(
                                                post.games.games()[gidx],
                                                NotifyScope::Only(client_id),
                                            ),
                                            spec_all_replay_packets(g.vanjects),
                                        )
                                }
                        }
                    }
            })
}

impl Server {
    /// Attaches the caller to the session named in the payload, or to a
    /// fresh session under the next counter id when zero is asked for. The
    /// caller gets the smallest free slot, the attachment answer, for
    /// protocol versions above one the wall-clock time, and a replay of
    /// every stored object. Errs when the payload is not four bytes, the
    /// caller is already in a session, the named session does not exist, or
    /// the session is full.
    #[verifier::rlimit(100)]
    pub fn attach_to_game(&mut self, packet: &Packet, client_id: ClientID) -> (r: Result<
        OnUpdateOk,
        OnUpdateError,
    >)
        ensures
            spec_attach_to_game_post(
                *old(self),
                *final(self),
                packet@,
                client_id,
                (match r {
                    Ok(_) => Ok::<(), OnUpdateError>(()),
                    Err(e) => Err(e),
                }),
            ),
            r matches Ok(ok) ==> ok is Complete,
    {
        if packet.data.len() != 4 {
            return Err(OnUpdateError::AttachToGameError(AttachToGameError::IdEmpty));
        }
        if self.games.game_index_by_client(client_id).is_some() {
            return Err(
                OnUpdateError::AttachToGameError(AttachToGameError::AlreadyAttached(client_id)),
            );
        }

        let requested = slice_le_to_i32(packet.data.as_slice());
        let tid: u32 = if requested == 0 {
            let id = self.get_game_uniq_id();
            let created = self.games.create(id);
            proof {
                if old(self).wf() {
                    assert(self.games.wf());
                }
                if created is Ok {
                    assert(self.games.games().last().id == id);
                    assert(self.games.games()[self.games.games().len() - 1].id == id);
                    assert(self.games.spec_has_game_id(id));
                } else {
                    assert(self.games.spec_has_game_id(id));
                }
            }
            id
        } else {
            u32_of_i32(requested)
        };

        let gidx = match self.games.game_index_by_id(tid) {
            Some(gidx) => gidx,
            None => {
                proof {
                    if requested == 0 {
                        assert(self.games.spec_has_game_id(tid));
                        assert(false);
                    }
                }
                return Err(OnUpdateError::AttachToGameError(AttachToGameError::NotExists(tid)));
            },
        };

        let ghost mid_games = self.games;
        let ghost gs1 = self.games.0;
        let slot = match self.games.0[gidx].attach_player(Player::new(client_id)) {
            Some(slot) => slot,
            None => {
                proof {
                    crate::utils::lemma_deep_view_update(&gs1, &self.games.0, gidx as int);
                    assert(self.games.games() =~= mid_games.games());
                    if requested == 0 && !old(self).games.spec_has_game_id(tid) {
                        assert forall|j: int|
                            0 <= j < old(self).games.games().len()
                                implies #[trigger] mid_games.games()[j].id != tid by {
                            assert(mid_games.games()[j] == old(self).games.games()[j]);
                            if mid_games.games()[j].id == tid {
                                assert(old(self).games.spec_has_game_id(tid));
                            }
                        };
                        assert(gidx as int == old(self).games.games().len());
                        assert(mid_games.games()[gidx as int].players.len() == 0);
                        assert(!mid_games.games()[gidx as int].spec_has_bind(1u8));
                        assert(false);
                    }
                }
                return Err(
                    OnUpdateError::AttachToGameError(
                        AttachToGameError::Full(self.games.0[gidx].id),
                    ),
                );
            },
        };

        proof {
            crate::utils::lemma_deep_view_update(&gs1, &self.games.0, gidx as int);
            assert(self.games.games() =~= mid_games.games().update(
                gidx as int,
                self.games.games()[gidx as int],
            ));
            assert(self.games.games()[gidx as int].players =~= mid_games.games()[
                gidx as int
            ].players.push(spec_attached_player(client_id, slot)));
            assert(self.games.games()[gidx as int] =~= (GameModel {
                players: mid_games.games()[gidx as int].players.push(
                    spec_attached_player(client_id, slot),
                ),
                ..mid_games.games()[gidx as int]
            }));
            if old(self).wf() {
                assert(mid_games.wf());
                assert(self.games.games()[gidx as int].wf());
                assert forall|c: ClientID|
                    #[trigger] self.games.games()[gidx as int].spec_has_client(c)
                        implies mid_games.games()[gidx as int].spec_has_client(c) || c
                    == client_id by {
                    let w = choose|w: int|
                        crate::game::is_client_idx(
                            self.games.games()[gidx as int].players,
                            c,
                            w,
                        );
                    if w < mid_games.games()[gidx as int].players.len() {
                        assert(crate::game::is_client_idx(
                            mid_games.games()[gidx as int].players,
                            c,
                            w,
                        ));
                    }
                };
                assert(!mid_games.spec_has_client(client_id));
                lemma_wf_update_add_client(&mid_games, &self.games, gidx as int, client_id);
                assert(self.games.wf());
                assert forall|j: int|
                    0 <= j < self.games.games().len() implies (#[trigger] self.games.games()[
                    j
                ]).players.len() > 0 by {
                    if j != gidx {
                        assert(self.games.games()[j] == mid_games.games()[j]);
                    }
                };
                assert(self.wf());
            }
            assert(crate::game::is_client_idx(
                self.games.games()[gidx as int].players,
                client_id,
                self.games.games()[gidx as int].players.len() - 1,
            ));
            assert(self.games.games()[gidx as int].spec_has_client(client_id));
            assert forall|j: int| 0 <= j < gidx implies !(#[trigger] self.games.games()[
                j
            ].spec_has_client(client_id)) by {
                assert(self.games.games()[j] == mid_games.games()[j]);
                if self.games.games()[j].spec_has_client(client_id) {
                    assert(mid_games.spec_has_client(client_id));
                }
            };
            assert(is_first_game_of_client(self.games.games(), client_id, gidx as int));
        }

        let game_ref = &self.games.0[gidx];
        let ghost vs = game_ref.vanjects.deep_view();

        // the largest object number this slot owns, per type index
        let mut offsets: Vec<u16> = vec![0u16; 16];
        let mut k: usize = 0;
        while k < game_ref.vanjects.len()
            invariant
                k <= vs.len(),
                vs == game_ref.vanjects.deep_view(),
                offsets@.len() == 16,
                forall|idx: int|
                    0 <= idx < 16 ==> #[trigger] offsets@[idx] == spec_offset_val(
                        vs.take(k as int),
                        slot,
                        idx,
                    ),
            decreases vs.len() - k,
        {
            let v = &game_ref.vanjects[k];
            let ghost pre_off = offsets@;
            let station = crate::vanject::get_station(v.id);
            let bits = crate::utils::u32_of_i32(v.id);
            let index_u32 = (bits >> 16) & 63;
            assert(bits & 0xFFFF <= 0xFFFF) by (bit_vector);
            let low = (bits & 0xFFFF) as u16;
            if station == slot as i32 && index_u32 < 16 {
                let index = index_u32 as usize;
                if offsets[index] < low {
                    offsets[index] = low;
                }
            }
            proof {
                assert(vs.take(k + 1).drop_last() =~= vs.take(k as int));
                assert(vs.take(k + 1).last() == vs[k as int]);
                assert((bits >> 16) & 63 < 64) by (bit_vector);
                assert forall|idx: int|
                    0 <= idx < 16 implies #[trigger] offsets@[idx] == spec_offset_val(
                    vs.take(k + 1),
                    slot,
                    idx,
                ) by {
                    assert(pre_off[idx] == spec_offset_val(vs.take(k as int), slot, idx));
                };
            }
            k = k + 1;
        }
        proof {
            assert(vs.take(vs.len() as int) =~= vs);
        }

        let configured: u8 = if game_ref.is_configured() {
            1
        } else {
            0
        };
        let birth = game_ref.birth_time.as_secs_u32();

        let mut adata = vstd::bytes::u32_to_le_bytes(game_ref.id);
        adata.push(configured);
        let mut birth_bytes = vstd::bytes::u32_to_le_bytes(birth);
        adata.append(&mut birth_bytes);
        adata.push(slot);
        let ghost header = adata@;
        let mut oi: usize = 0;
        while oi < 16
            invariant
                oi <= 16,
                offsets@.len() == 16,
                forall|idx: int|
                    0 <= idx < 16 ==> #[trigger] offsets@[idx] == spec_offset_val(vs, slot, idx),
                adata@ == header + spec_offsets_bytes_upto(vs, slot, oi as int),
            decreases 16 - oi,
        {
            let o = offsets[oi];
            let wire_val: u16 = if o == 0 {
                0
            } else if o == 0xFFFF {
                0
            } else {
                o + 1
            };
            proof {
                assert(wire_val == spec_offset_wire(offsets@[oi as int]));
            }
            let mut ob = vstd::bytes::u16_to_le_bytes(wire_val);
            adata.append(&mut ob);
            proof {
                assert(adata@ =~= header + spec_offsets_bytes_upto(vs, slot, oi + 1));
            }
            oi = oi + 1;
        }

        // the replay of every stored object
        let mut replays: Vec<Packet> = Vec::new();
        let mut rk: usize = 0;
        while rk < game_ref.vanjects.len()
            invariant
                rk <= vs.len(),
                vs == game_ref.vanjects.deep_view(),
                replays@.map_values(|q: Packet| q@) == spec_all_replay_packets(vs.take(rk as int)),
            decreases vs.len() - rk,
        {
            let v = &game_ref.vanjects[rk];
            let ghost taken = vs.take(rk + 1);
            proof {
                assert(taken.drop_last() =~= vs.take(rk as int));
                assert(taken.last() == vs[rk as int]);
            }
            let wire = v.to_vangers_byte();
            if wire.len() <= 32765 {
                let p = Packet::new(Action::UPDATE_OBJECT, wire.as_slice());
                proof {
                    assert(p@ =~= spec_update_packet(vs[rk as int]));
                }
                replays.push(p);
                proof {
                    assert(replays@.map_values(|q: Packet| q@) =~= spec_all_replay_packets(taken));
                }
            } else {
                proof {
                    assert(replays@.map_values(|q: Packet| q@) =~= spec_all_replay_packets(taken));
                }
            }
            rk = rk + 1;
        }
        proof {
            assert(vs.take(vs.len() as int) =~= vs);
        }

        let ghost g2_now = self.games.games()[gidx as int];
        let ghost clients0 = old(self).clients.deep_view();
        let ghost only = spec_targets(g2_now, NotifyScope::Only(client_id));
        let ghost ob0 = self.outbox@;

        proof {
            vstd::bytes::lemma_auto_spec_u32_to_from_le_bytes();
            vstd::bytes::lemma_auto_spec_u16_to_from_le_bytes();
            lemma_offsets_bytes_len(vs, slot, 16);
            assert(adata@ =~= spec_attach_answer_data(g2_now, configured, birth, slot));
            assert(adata@.len() == 42);
        }
        let answer = match packet.create_answer(adata) {
            Some(answer) => answer,
            None => {
                return Err(OnUpdateError::ResponsePacketTypeNotExist(packet.action));
            },
        };
        proof {
            assert(is_first_game_of_client(self.games.games(), client_id, gidx as int));
            assert(self.clients.deep_view() =~= clients0);
            assert(spec_targets(self.games.games()[gidx as int], NotifyScope::Only(client_id))
                == only);
            assert(self.outbox@ == ob0);
        }
        self.notify_player(client_id, &answer);
        proof {
            assert(spec_outbox_view(self.outbox@) == spec_outbox_view(ob0) + spec_sends(
                clients0,
                only,
                answer@,
            ));
        }
        let ghost ob1 = self.outbox@;

        let mut proto_above: bool = false;
        let ghost games_after = self.games;
        let ghost counter_after = self.games_id_uniq;
        let ghost outbox_after = self.outbox@;
        let mut ci: usize = 0;
        while ci < self.clients.len()
            invariant
                ci <= self.clients@.len(),
                proto_above == exists|i: int|
                    0 <= i < ci && (#[trigger] self.clients.deep_view()[i]).id == client_id
                        && self.clients.deep_view()[i].protocol > 1,
                self.clients == old(self).clients,
                self.games == games_after,
                self.games_id_uniq == counter_after,
                self.outbox@ == outbox_after,
                self.port == old(self).port,
                self.uptime == old(self).uptime,
            decreases self.clients@.len() - ci,
        {
            if self.clients[ci].id == client_id && self.clients[ci].protocol > 1 {
                proof {
                    assert(self.clients.deep_view()[ci as int].id == client_id
                        && self.clients.deep_view()[ci as int].protocol > 1);
                }
                proto_above = true;
            }
            ci = ci + 1;
        }
        proof {
            assert(self.clients.deep_view() =~= old(self).clients.deep_view());
            assert(proto_above == spec_protocol_above_one(
                old(self).clients.deep_view(),
                client_id,
            ));
        }

        let mut unix_used: u32 = 0;
        if proto_above {
            let unix = crate::uptime::unix_now_secs();
            unix_used = unix;
            let mut zdata = vstd::bytes::u32_to_le_bytes(unix);
            proof {
                vstd::bytes::lemma_auto_spec_u32_to_from_le_bytes();
                assert(zdata@.len() == 4);
            }
            let z = Packet::new(Action::Z_TIME_RESPONSE, zdata.as_slice());
            proof {
                assert(z@ =~= spec_ztime_packet(unix));
                assert(is_first_game_of_client(self.games.games(), client_id, gidx as int));
                assert(self.clients.deep_view() =~= clients0);
                assert(spec_targets(
                    self.games.games()[gidx as int],
                    NotifyScope::Only(client_id),
                ) == only);
            }
            self.notify_player(client_id, &z);
            proof {
                assert(spec_outbox_view(self.outbox@) == spec_outbox_view(ob1) + spec_sends(
                    clients0,
                    only,
                    spec_ztime_packet(unix_used),
                ));
            }
        }
        let ghost ob2 = self.outbox@;

        let ghost pkts = replays@.map_values(|q: Packet| q@);
        let ghost counter_final = self.games_id_uniq;
        let mut m: usize = 0;
        while m < replays.len()
            invariant
                m <= replays@.len(),
                pkts == replays@.map_values(|q: Packet| q@),
                gidx < self.games.games().len(),
                is_first_game_of_client(self.games.games(), client_id, gidx as int),
                g2_now == self.games.games()[gidx as int],
                only == spec_targets(g2_now, NotifyScope::Only(client_id)),
                clients0 == old(self).clients.deep_view(),
                self.clients == old(self).clients,
                self.games == games_after,
                self.games_id_uniq == counter_final,
                self.port == old(self).port,
                self.uptime == old(self).uptime,
                spec_outbox_view(self.outbox@) == spec_outbox_view(ob2) + spec_packets_sends(
                    clients0,
                    only,
                    pkts.take(m as int),
                ),
            decreases replays@.len() - m,
        {
            let ghost ob_pre = self.outbox@;
            proof {
                assert(self.clients.deep_view() =~= clients0);
            }
            let replay_packet = &replays[m];
            proof {
                assert(replay_packet@ == pkts[m as int]);
            }
            self.notify_player(client_id, replay_packet);
            proof {
                assert(pkts.take(m + 1).drop_last() =~= pkts.take(m as int));
                assert(pkts.take(m + 1).last() == pkts[m as int]);
                assert(spec_outbox_view(self.outbox@) == spec_outbox_view(ob_pre) + spec_sends(
                    clients0,
                    only,
                    pkts[m as int],
                ));
                assert(spec_outbox_view(self.outbox@) =~= spec_outbox_view(ob2)
                    + spec_packets_sends(clients0, only, pkts.take(m + 1)));
            }
            m = m + 1;
        }
        proof {
            assert(pkts.take(pkts.len() as int) =~= pkts);
        }

        proof {
            if packet@.action == Action::ATTACH_TO_GAME {
                let answer_model = PacketModel {
                    event_size: 43,
                    action: Action::ATTACH_TO_GAME_RESPONSE,
                    real_action: 0xC3,
                    data: spec_attach_answer_data(g2_now, configured, birth, slot),
                };
                assert(answer@ =~= answer_model);
                assert(spec_outbox_view(self.outbox@) == spec_outbox_view(ob2)
                    + spec_packets_sends(clients0, only, pkts));
                if proto_above {
                    assert(spec_outbox_view(self.outbox@) =~= spec_outbox_view(old(self).outbox@)
                        + spec_sends(clients0, only, answer_model) + spec_sends(
                        clients0,
                        only,
                        spec_ztime_packet(unix_used),
                    ) + spec_packets_sends(clients0, only, pkts));
                } else {
                    assert(ob2 == ob1);
                    assert(spec_outbox_view(self.outbox@) =~= spec_outbox_view(old(self).outbox@)
                        + spec_sends(clients0, only, answer_model) + spec_packets_sends(
                        clients0,
                        only,
                        pkts,
                    ));
                }
                assert(pkts =~= spec_all_replay_packets(g2_now.vanjects));
                if requested == 0 && !old(self).games.spec_has_game_id(tid) {
                    assert(mid_games.games() =~= old(self).games.games().push(
                        mid_games.games().last(),
                    ));
                    assert forall|j: int|
                        0 <= j < old(self).games.games().len()
                            implies #[trigger] mid_games.games()[j].id != tid by {
                        assert(mid_games.games()[j] == old(self).games.games()[j]);
                        if mid_games.games()[j].id == tid {
                            assert(old(self).games.spec_has_game_id(tid));
                        }
                    };
                    assert(gidx as int == old(self).games.games().len());
                    assert(mid_games.games()[gidx as int].players.len() == 0);
                    if slot > 1 {
                        assert(mid_games.games()[gidx as int].spec_has_bind(1u8));
                        assert(false);
                    }
                    assert(slot == 1);
                    assert(self.games.games() =~= old(self).games.games().push(g2_now));
                    assert(g2_now.vanjects =~= Seq::<VanjectModel>::empty());
                    assert(pkts =~= Seq::<PacketModel>::empty());
                    assert(g2_now.players =~= seq![spec_attached_player(client_id, 1u8)]);
                }
            }
        }

        proof {
            assert(self.uptime == old(self).uptime);
            assert(self.port == old(self).port);
            assert(self.clients == old(self).clients);
        }
        Ok(OnUpdateOk::Complete)
    }
}

} // verus!
