//! SET_WORLD: resolves or creates the named world, places the caller in it,
//! replays the world's standing objects to the caller, and tells the
//! session.

use crate::callback::update_object::spec_update_packet;
use crate::callback::{OnUpdateError, OnUpdateOk};
use crate::client::ClientID;
use crate::game::{is_first_client_idx, GameModel};
use crate::games::{is_first_game_of_client, lemma_wf_update_no_new_client};
use crate::player::{PlayerModel, Status};
use crate::protocol::{Action, Packet, PacketModel};
use crate::server::{
    spec_outbox_view, spec_sends, spec_targets, ClientInfoModel, NotifyScope, Server,
};
use crate::utils::slice_le_to_i16;
use crate::vanject::{
    spec_is_non_global, spec_is_players, spec_vanject_type, spec_vanject_wire, spec_world_of_id,
    VanjectModel, NID_VANGER,
};
use crate::world::World;
use vstd::prelude::*;

verus! {

/// Why SET_WORLD was refused.
#[derive(Debug)]
pub enum SetWorldError {
    /// The caller is in no session.
    PlayerNotFound(ClientID),
    /// The caller holds no slot; a freshly created world stays.
    PlayerNotBind(ClientID),
    /// The named world exists with another size: stored, given.
    InvalidWorldSize(i16, i16),
    /// The payload is shorter than a world id and size.
    SliceTooSmall,
}

/// Whether a standing object is replayed to a player entering world `wid`:
/// not an avatar, tagged with that world, and either not a player's object
/// or one that lives in a world.
pub open spec fn spec_replayed(v: VanjectModel, wid: u8) -> bool {
    &&& spec_vanject_type(v.id) != NID_VANGER
    &&& spec_world_of_id(v.id) == wid as i32
    &&& (!spec_is_players(v.id) || spec_is_non_global(v.id))
}

/// The replay packets for the standing objects of world `wid`, in storage
/// order; an oversized object is dropped rather than framed.
pub open spec fn spec_replay_packets(vs: Seq<VanjectModel>, wid: u8) -> Seq<PacketModel>
    decreases vs.len(),
{
    if vs.len() == 0 {
        Seq::empty()
    } else {
        spec_replay_packets(vs.drop_last(), wid) + (if spec_replayed(vs.last(), wid)
            && spec_vanject_wire(vs.last()).len() + 2 <= 32767 {
            seq![spec_update_packet(vs.last())]
        } else {
            Seq::empty()
        })
    }
}

/// The fan-outs that queueing each of `pkts` for the targets produces.
pub open spec fn spec_packets_sends(
    clients: Seq<ClientInfoModel>,
    targets: Set<ClientID>,
    pkts: Seq<PacketModel>,
) -> Seq<(ClientID, PacketModel)>
    decreases pkts.len(),
{
    if pkts.len() == 0 {
        Seq::empty()
    } else {
        spec_packets_sends(clients, targets, pkts.drop_last()) + spec_sends(
            clients,
            targets,
            pkts.last(),
        )
    }
}

/// The replay fan-outs for the standing objects of world `wid`.
pub open spec fn spec_world_replays(
    clients: Seq<ClientInfoModel>,
    targets: Set<ClientID>,
    vs: Seq<VanjectModel>,
    wid: u8,
) -> Seq<(ClientID, PacketModel)> {
    spec_packets_sends(clients, targets, spec_replay_packets(vs, wid))
}

/// The PLAYERS_STATUS note that a slot started playing.
pub open spec fn spec_gaming_packet(bind: u8) -> PacketModel {
    PacketModel {
        event_size: 3,
        action: Action::PLAYERS_STATUS,
        real_action: 0xD2,
        data: seq![bind, 1u8],
    }
}

/// The PLAYERS_WORLD note that a slot stands in world `wid`.
pub open spec fn spec_world_packet(bind: u8, wid: u8) -> PacketModel {
    PacketModel {
        event_size: 3,
        action: Action::PLAYERS_WORLD,
        real_action: 0xD1,
        data: seq![bind, wid],
    }
}

/// The SET_WORLD_RESPONSE to the caller: the world id and whether the world
/// was created now.
pub open spec fn spec_set_world_answer(wid: u8, created: u8) -> PacketModel {
    PacketModel {
        event_size: 3,
        action: Action::SET_WORLD_RESPONSE,
        real_action: 0xC8,
        data: seq![wid, created],
    }
}

/// Everything this handler's contract states, over the states before and
/// after the call, the packet value, the caller, and the result with its
/// success payload erased.
pub open spec fn spec_set_world_post(
    pre: Server,
    post: Server,
    pm: PacketModel,
    client_id: ClientID,
    r: Result<(), OnUpdateError>,
) -> bool {
    &&& (r matches Err(e) ==> !(e is NotImplementedAction))
    &&& (pre.wf() ==> post.wf())
    &&& (post.clients == pre.clients)
    &&& (post.games_id_uniq == pre.games_id_uniq)
    &&& (post.port == pre.port)
    &&& (post.uptime == pre.uptime)
    &&& (pm.data.len() < 3 ==> (r matches Err(OnUpdateError::SetWorldError(
                SetWorldError::SliceTooSmall,
            )) && post.games.games() == pre.games.games() && post.outbox
                == pre.outbox))
    &&& (pm.data.len() >= 3 && !pre.games.spec_has_client(client_id) ==> (r
                matches Err(OnUpdateError::SetWorldError(SetWorldError::PlayerNotFound(c))) && c
                == client_id && post.games.games() == pre.games.games() && post.outbox == pre.outbox))
    &&& (forall|gi: int, pi: int|
                #[trigger] is_first_game_of_client(pre.games.games(), client_id, gi)
                    && #[trigger] is_first_client_idx(
                    pre.games.games()[gi].players,
                    client_id,
                    pi,
                ) && pm.data.len() >= 3 && pm.action == Action::SET_WORLD ==> {
                    let g = pre.games.games()[gi];
                    let p = g.players[pi];
                    let d = pm.data;
                    let wid = d[0];
                    let ysize = crate::utils::spec_i16_from_le(d.subrange(1, 3));
                    let fresh = !g.spec_has_world(wid);
                    let created: u8 = if fresh {
                        1u8
                    } else {
                        0u8
                    };
                    let g1 = if fresh {
                        GameModel {
                            worlds: g.worlds.push(
                                crate::world::WorldModel {
                                    id: wid,
                                    y_size: ysize,
                                    vanjects: Seq::empty(),
                                },
                            ),
                            ..g
                        }
                    } else {
                        g
                    };
                    let size_ok = fresh || (forall|wi: int|
                        (0 <= wi < g.worlds.len() && g.worlds[wi].id == wid && (forall|j: int|
                            0 <= j < wi ==> g.worlds[j].id != wid)) ==> g.worlds[wi].y_size
                            == ysize);
                    if !size_ok {
                        (r matches Err(OnUpdateError::SetWorldError(
                            SetWorldError::InvalidWorldSize(_, given),
                        )) && given == ysize && post.games.games() == pre.games.games() && post.outbox == pre.outbox)
                    } else if p.bind is None {
                        (r matches Err(OnUpdateError::SetWorldError(SetWorldError::PlayerNotBind(
                            c,
                        ))) && c == client_id && post.games.games() == pre.games.games().update(gi, g1) && post.outbox == pre.outbox)
                    } else {
                        let changed = p.status != Status::GAMING;
                        let p2 = PlayerModel { world: Some(wid), status: Status::GAMING, ..p };
                        let g2 = GameModel { players: g1.players.update(pi, p2), ..g1 };
                        let all = spec_targets(g2, NotifyScope::All);
                        let except = spec_targets(g2, NotifyScope::Except(client_id));
                        let only = spec_targets(g2, NotifyScope::Only(client_id));
                        let bind = p.bind->0;
                        &&& r is Ok
                        &&& post.games.games() == pre.games.games().update(gi, g2)
                        &&& spec_outbox_view(post.outbox@) == spec_outbox_view(
                            pre.outbox@,
                        ) + (if changed {
                            spec_sends(
                                pre.clients.deep_view(),
                                all,
                                spec_gaming_packet(bind),
                            )
                        } else {
                            Seq::empty()
                        }) + spec_sends(
                            pre.clients.deep_view(),
                            except,
                            spec_world_packet(bind, wid),
                        ) + spec_sends(
                            pre.clients.deep_view(),
                            only,
                            spec_set_world_answer(wid, created),
                        ) + spec_world_replays(
                            pre.clients.deep_view(),
                            only,
                            g.vanjects,
                            wid,
                        )
                    }
                })
}

/// The handler's stated clauses, bundled into its post predicate.
pub proof fn lemma_set_world_post(
    pre: Server,
    post: Server,
    pm: PacketModel,
    client_id: ClientID,
    r: Result<(), OnUpdateError>,
)
    requires
        (r matches Err(e) ==> !(e is NotImplementedAction)),
        (pre.wf() ==> post.wf()),
        (post.clients == pre.clients),
        (post.games_id_uniq == pre.games_id_uniq),
        (post.port == pre.port),
        (post.uptime == pre.uptime),
        (pm.data.len() < 3 ==> (r matches Err(OnUpdateError::SetWorldError(
                SetWorldError::SliceTooSmall,
            )) && post.games.games() == pre.games.games() && post.outbox
                == pre.outbox)),
        (pm.data.len() >= 3 && !pre.games.spec_has_client(client_id) ==> (r
                matches Err(OnUpdateError::SetWorldError(SetWorldError::PlayerNotFound(c))) && c
                == client_id && post.games.games() == pre.games.games() && post.outbox == pre.outbox)),
        (forall|gi: int, pi: int|
                #[trigger] is_first_game_of_client(pre.games.games(), client_id, gi)
                    && #[trigger] is_first_client_idx(
                    pre.games.games()[gi].players,
                    client_id,
                    pi,
                ) && pm.data.len() >= 3 && pm.action == Action::SET_WORLD ==> {
                    let g = pre.games.games()[gi];
                    let p = g.players[pi];
                    let d = pm.data;
                    let wid = d[0];
                    let ysize = crate::utils::spec_i16_from_le(d.subrange(1, 3));
                    let fresh = !g.spec_has_world(wid);
                    let created: u8 = if fresh {
                        1u8
                    } else {
                        0u8
                    };
                    let g1 = if fresh {
                        GameModel {
                            worlds: g.worlds.push(
                                crate::world::WorldModel {
                                    id: wid,
                                    y_size: ysize,
                                    vanjects: Seq::empty(),
                                },
                            ),
                            ..g
                        }
                    } else {
                        g
                    };
                    let size_ok = fresh || (forall|wi: int|
                        (0 <= wi < g.worlds.len() && g.worlds[wi].id == wid && (forall|j: int|
                            0 <= j < wi ==> g.worlds[j].id != wid)) ==> g.worlds[wi].y_size
                            == ysize);
                    if !size_ok {
                        (r matches Err(OnUpdateError::SetWorldError(
                            SetWorldError::InvalidWorldSize(_, given),
                        )) && given == ysize && post.games.games() == pre.games.games() && post.outbox == pre.outbox)
                    } else if p.bind is None {
                        (r matches Err(OnUpdateError::SetWorldError(SetWorldError::PlayerNotBind(
                            c,
                        ))) && c == client_id && post.games.games() == pre.games.games().update(gi, g1) && post.outbox == pre.outbox)
                    } else {
                        let changed = p.status != Status::GAMING;
                        let p2 = PlayerModel { world: Some(wid), status: Status::GAMING, ..p };
                        let g2 = GameModel { players: g1.players.update(pi, p2), ..g1 };
                        let all = spec_targets(g2, NotifyScope::All);
                        let except = spec_targets(g2, NotifyScope::Except(client_id));
                        let only = spec_targets(g2, NotifyScope::Only(client_id));
                        let bind = p.bind->0;
                        &&& r is Ok
                        &&& post.games.games() == pre.games.games().update(gi, g2)
                        &&& spec_outbox_view(post.outbox@) == spec_outbox_view(
                            pre.outbox@,
                        ) + (if changed {
                            spec_sends(
                                pre.clients.deep_view(),
                                all,
                                spec_gaming_packet(bind),
                            )
                        } else {
                            Seq::empty()
                        }) + spec_sends(
                            pre.clients.deep_view(),
                            except,
                            spec_world_packet(bind, wid),
                        ) + spec_sends(
                            pre.clients.deep_view(),
                            only,
                            spec_set_world_answer(wid, created),
                        ) + spec_world_replays(
                            pre.clients.deep_view(),
                            only,
                            g.vanjects,
                            wid,
                        )
                    }
                }),
    ensures
        spec_set_world_post(pre, post, pm, client_id, r),
{
}

impl Server {
    /// Resolves the named world or creates it with the given size (an
    /// existing world must match the size), places the caller in it as
    /// playing, announces the status change (when there is one) to the whole
    /// session and the world assignment to the peers, answers the caller,
    /// and replays the world's standing objects to the caller. Errs on a
    /// short payload, an unknown caller, a size mismatch, or an unbound
    /// caller; only in the last case a freshly created world stays behind.
    #[verifier::rlimit(100)]
    pub fn set_world(&mut self, packet: &Packet, client_id: ClientID) -> (r: Result<
        OnUpdateOk,
        OnUpdateError,
    >)
        ensures
            (r matches Err(e) ==> !(e is NotImplementedAction)),
            (old(self).wf() ==> final(self).wf()),
            (final(self).clients == old(self).clients),
            (final(self).games_id_uniq == old(self).games_id_uniq),
            (final(self).port == old(self).port),
            (final(self).uptime == old(self).uptime),
            (packet@.data.len() < 3 ==> (r matches Err(OnUpdateError::SetWorldError(
                SetWorldError::SliceTooSmall,
            )) && final(self).games.games() == old(self).games.games() && final(self).outbox
                == old(self).outbox)),
            (packet@.data.len() >= 3 && !old(self).games.spec_has_client(client_id) ==> (r
                matches Err(OnUpdateError::SetWorldError(SetWorldError::PlayerNotFound(c))) && c
                == client_id && final(self).games.games() == old(self).games.games() && final(self).outbox == old(self).outbox)),
            (forall|gi: int, pi: int|
                #[trigger] is_first_game_of_client(old(self).games.games(), client_id, gi)
                    && #[trigger] is_first_client_idx(
                    old(self).games.games()[gi].players,
                    client_id,
                    pi,
                ) && packet@.data.len() >= 3 && packet@.action == Action::SET_WORLD ==> {
                    let g = old(self).games.games()[gi];
                    let p = g.players[pi];
                    let d = packet@.data;
                    let wid = d[0];
                    let ysize = crate::utils::spec_i16_from_le(d.subrange(1, 3));
                    let fresh = !g.spec_has_world(wid);
                    let created: u8 = if fresh {
                        1u8
                    } else {
                        0u8
                    };
                    let g1 = if fresh {
                        GameModel {
                            worlds: g.worlds.push(
                                crate::world::WorldModel {
                                    id: wid,
                                    y_size: ysize,
                                    vanjects: Seq::empty(),
                                },
                            ),
                            ..g
                        }
                    } else {
                        g
                    };
                    let size_ok = fresh || (forall|wi: int|
                        (0 <= wi < g.worlds.len() && g.worlds[wi].id == wid && (forall|j: int|
                            0 <= j < wi ==> g.worlds[j].id != wid)) ==> g.worlds[wi].y_size
                            == ysize);
                    if !size_ok {
                        (r matches Err(OnUpdateError::SetWorldError(
                            SetWorldError::InvalidWorldSize(_, given),
                        )) && given == ysize && final(self).games.games() == old(self).games.games() && final(self).outbox == old(self).outbox)
                    } else if p.bind is None {
                        (r matches Err(OnUpdateError::SetWorldError(SetWorldError::PlayerNotBind(
                            c,
                        ))) && c == client_id && final(self).games.games() == old(self).games.games().update(gi, g1) && final(self).outbox == old(self).outbox)
                    } else {
                        let changed = p.status != Status::GAMING;
                        let p2 = PlayerModel { world: Some(wid), status: Status::GAMING, ..p };
                        let g2 = GameModel { players: g1.players.update(pi, p2), ..g1 };
                        let all = spec_targets(g2, NotifyScope::All);
                        let except = spec_targets(g2, NotifyScope::Except(client_id));
                        let only = spec_targets(g2, NotifyScope::Only(client_id));
                        let bind = p.bind->0;
                        &&& r is Ok
                        &&& final(self).games.games() == old(self).games.games().update(gi, g2)
                        &&& spec_outbox_view(final(self).outbox@) == spec_outbox_view(
                            old(self).outbox@,
                        ) + (if changed {
                            spec_sends(
                                old(self).clients.deep_view(),
                                all,
                                spec_gaming_packet(bind),
                            )
                        } else {
                            Seq::empty()
                        }) + spec_sends(
                            old(self).clients.deep_view(),
                            except,
                            spec_world_packet(bind, wid),
                        ) + spec_sends(
                            old(self).clients.deep_view(),
                            only,
                            spec_set_world_answer(wid, created),
                        ) + spec_world_replays(
                            old(self).clients.deep_view(),
                            only,
                            g.vanjects,
                            wid,
                        )
                    }
                }),
            r matches Ok(ok) ==> ok is Complete,
    {
        if packet.data.len() < 3 {
            return Err(OnUpdateError::SetWorldError(SetWorldError::SliceTooSmall));
        }
        let world_id = packet.data[0];
        let world_y_size = slice_le_to_i16(&packet.data.as_slice()[1..3]);

        let gi = match self.games.game_index_by_client(client_id) {
            Some(gi) => gi,
            None => {
                return Err(
                    OnUpdateError::SetWorldError(SetWorldError::PlayerNotFound(client_id)),
                );
            },
        };
        let pi = match self.games.0[gi].player_index(client_id) {
            Some(pi) => pi,
            None => {
                proof {
                    assert(false);
                }
                0
            },
        };

        let mut world_status: u8 = 0;
        let ghost gs0 = self.games.0;
        match self.games.0[gi].world_index(world_id) {
            Some(wi) => {
                if self.games.0[gi].worlds[wi].y_size != world_y_size {
                    return Err(
                        OnUpdateError::SetWorldError(
                            SetWorldError::InvalidWorldSize(
                                self.games.0[gi].worlds[wi].y_size,
                                world_y_size,
                            ),
                        ),
                    );
                }
                proof {
                    assert(self.games.games()[gi as int].worlds[wi as int].id == world_id);
                    assert(self.games.games()[gi as int].spec_has_world(world_id));
                }
            },
            None => {
                self.games.0[gi].add_world(World::new(world_id, world_y_size));
                world_status = 1;
                proof {
                    let n = self.games.0@[gi as int]@.worlds.len() - 1;
                    assert(self.games.0@[gi as int]@.worlds[n].id == world_id);
                    assert(self.games.0@[gi as int]@.worlds[n].vanjects =~= Seq::<
                        VanjectModel,
                    >::empty());
                    assert(self.games.0@[gi as int]@.worlds[n] =~= (crate::world::WorldModel {
                        id: world_id,
                        y_size: world_y_size,
                        vanjects: Seq::empty(),
                    }));
                    assert(self.games.0@[gi as int]@.spec_has_world(world_id));
                }
            },
        }
        proof {
            assert(self.games.0@ =~= gs0@.update(gi as int, self.games.0@[gi as int]));
            crate::utils::lemma_deep_view_update(&gs0, &self.games.0, gi as int);
            let pre = old(self).games;
            let post = self.games;
            assert(post.games() =~= pre.games().update(gi as int, post.games()[gi as int]));
            if old(self).wf() {
                assert forall|c: ClientID|
                    #[trigger] post.games()[gi as int].spec_has_client(c) implies pre.games()[
                    gi as int
                ].spec_has_client(c) by {};
                assert(post.games()[gi as int].wf());
                lemma_wf_update_no_new_client(&pre, &post, gi as int);
                assert(self.wf());
            }
            assert(is_first_game_of_client(self.games.games(), client_id, gi as int));
        }

        let bind = match &self.games.0[gi].players[pi].bind {
            Some(b) => b.id(),
            None => {
                proof {
                    assert(old(self).games.games().update(
                        gi as int,
                        old(self).games.games()[gi as int],
                    ) =~= old(self).games.games());
                }
                return Err(
                    OnUpdateError::SetWorldError(SetWorldError::PlayerNotBind(client_id)),
                );
            },
        };

        // the standing objects of this world, gathered before the placement
        let mut replays: Vec<Packet> = Vec::new();
        let ghost vs = self.games.games()[gi as int].vanjects;
        let game_ref = &self.games.0[gi];
        let mut k: usize = 0;
        while k < game_ref.vanjects.len()
            invariant
                k <= vs.len(),
                vs == game_ref.vanjects.deep_view(),
                replays@.map_values(|q: Packet| q@) == spec_replay_packets(
                    vs.take(k as int),
                    world_id,
                ),
            decreases vs.len() - k,
        {
            let v = &game_ref.vanjects[k];
            let ghost taken = vs.take(k + 1);
            proof {
                assert(taken.drop_last() =~= vs.take(k as int));
                assert(taken.last() == vs[k as int]);
            }
            let keep = crate::vanject::get_vanject_type(v.id) != NID_VANGER
                && crate::vanject::get_world(v.id) == world_id as i32 && (
            !crate::vanject::is_players_vanject(v.id) || crate::vanject::is_non_global_vanject(
                v.id,
            ));
            proof {
                assert(keep == spec_replayed(vs[k as int], world_id));
            }
            if keep {
                let wire = v.to_vangers_byte();
                if wire.len() <= 32765 {
                    let p = Packet::new(Action::UPDATE_OBJECT, wire.as_slice());
                    proof {
                        assert(p@ =~= spec_update_packet(vs[k as int]));
                    }
                    replays.push(p);
                    proof {
                        assert(replays@.map_values(|q: Packet| q@) =~= spec_replay_packets(
                            taken,
                            world_id,
                        ));
                    }
                } else {
                    proof {
                        assert(replays@.map_values(|q: Packet| q@) =~= spec_replay_packets(
                            taken,
                            world_id,
                        ));
                    }
                }
            } else {
                proof {
                    assert(replays@.map_values(|q: Packet| q@) =~= spec_replay_packets(
                        taken,
                        world_id,
                    ));
                }
            }
            k = k + 1;
        }
        proof {
            assert(vs.take(vs.len() as int) =~= vs);
        }

        let ghost g_mid = self.games;
        let ghost gs1 = self.games.0;
        proof {
            assert(crate::game::is_client_idx(
                self.games.games()[gi as int].players,
                client_id,
                pi as int,
            ));
            assert(self.games.0@[gi as int]@ == self.games.games()[gi as int]);
            assert(self.games.games()[gi as int].spec_has_client(client_id));
            assert(self.games.games()[gi as int].spec_has_world(world_id));
        }
        let changed = self.games.0[gi].place_player(client_id, world_id);
        proof {
            crate::utils::lemma_deep_view_update(&gs1, &self.games.0, gi as int);
            assert(crate::game::is_first_client_idx(
                g_mid.games()[gi as int].players,
                client_id,
                pi as int,
            ));
            assert(self.games.games() =~= g_mid.games().update(
                gi as int,
                self.games.games()[gi as int],
            ));
            if old(self).wf() {
                assert forall|c: ClientID|
                    #[trigger] self.games.games()[gi as int].spec_has_client(c)
                        implies g_mid.games()[gi as int].spec_has_client(c) by {
                    let w = choose|w: int|
                        crate::game::is_client_idx(self.games.games()[gi as int].players, c, w);
                    assert(crate::game::is_client_idx(g_mid.games()[gi as int].players, c, w));
                };
                lemma_wf_update_no_new_client(&g_mid, &self.games, gi as int);
                assert(self.wf());
            }
            assert(crate::game::is_client_idx(
                self.games.games()[gi as int].players,
                client_id,
                pi as int,
            ));
            assert forall|j: int| 0 <= j < gi implies !(#[trigger] self.games.games()[
                j
            ].spec_has_client(client_id)) by {
                assert(self.games.games()[j] == old(self).games.games()[j]);
            };
            assert(is_first_game_of_client(self.games.games(), client_id, gi as int));
        }

        let ghost g2_now = self.games.games()[gi as int];
        let ghost clients0 = old(self).clients.deep_view();
        let ghost all = spec_targets(g2_now, NotifyScope::All);
        let ghost except = spec_targets(g2_now, NotifyScope::Except(client_id));
        let ghost only = spec_targets(g2_now, NotifyScope::Only(client_id));
        let ghost ob0 = self.outbox@;

        if changed {
            let status_packet = Packet::new(Action::PLAYERS_STATUS, &[bind, 1u8]);
            proof {
                assert(status_packet@.data =~= seq![bind, 1u8]);
                assert(status_packet@ =~= spec_gaming_packet(bind));
            }
            self.notify_all(client_id, &status_packet);
        }
        let ghost ob1 = self.outbox@;

        let world_packet = Packet::new(Action::PLAYERS_WORLD, &[bind, world_id]);
        proof {
            assert(world_packet@.data =~= seq![bind, world_id]);
            assert(world_packet@ =~= spec_world_packet(bind, world_id));
        }
        self.notify_game(client_id, &world_packet);
        let ghost ob2 = self.outbox@;

        let answer = match packet.create_answer(vec![world_id, world_status]) {
            Some(answer) => answer,
            None => {
                return Err(OnUpdateError::ResponsePacketTypeNotExist(packet.action));
            },
        };
        proof {
            if packet@.action == Action::SET_WORLD {
                assert(answer@.data =~= seq![world_id, world_status]);
                assert(answer@ =~= spec_set_world_answer(world_id, world_status));
            }
        }
        self.notify_player(client_id, &answer);
        let ghost ob3 = self.outbox@;

        let ghost pkts = replays@.map_values(|q: Packet| q@);
        let ghost games_after = self.games;
        let mut m: usize = 0;
        while m < replays.len()
            invariant
                m <= replays@.len(),
                pkts == replays@.map_values(|q: Packet| q@),
                gi < self.games.games().len(),
                is_first_game_of_client(self.games.games(), client_id, gi as int),
                g2_now == self.games.games()[gi as int],
                only == spec_targets(g2_now, NotifyScope::Only(client_id)),
                clients0 == old(self).clients.deep_view(),
                self.clients == old(self).clients,
                self.games == games_after,
                self.games_id_uniq == old(self).games_id_uniq,
                self.port == old(self).port,
                self.uptime == old(self).uptime,
                spec_outbox_view(self.outbox@) == spec_outbox_view(ob3) + spec_packets_sends(
                    clients0,
                    only,
                    pkts.take(m as int),
                ),
            decreases replays@.len() - m,
        {
            let ghost ob_pre = self.outbox@;
            proof {
                assert(is_first_game_of_client(self.games.games(), client_id, gi as int));
                assert(self.clients.deep_view() =~= clients0);
                assert(spec_targets(self.games.games()[gi as int], NotifyScope::Only(client_id))
                    == only);
            }
            let replay_packet = &replays[m];
            proof {
                assert(replay_packet@ == pkts[m as int]);
            }
            self.notify_player(client_id, replay_packet);
            proof {
                assert(pkts.take(m + 1).drop_last() =~= pkts.take(m as int));
                assert(pkts.take(m + 1).last() == pkts[m as int]);
                assert((&replays@[m as int])@ == pkts[m as int]);
                assert(spec_outbox_view(self.outbox@) == spec_outbox_view(ob_pre) + spec_sends(
                    clients0,
                    only,
                    pkts[m as int],
                ));
                assert(spec_outbox_view(self.outbox@) =~= spec_outbox_view(ob3)
                    + spec_packets_sends(clients0, only, pkts.take(m + 1)));
            }
            m = m + 1;
        }
        proof {
            assert(pkts.take(pkts.len() as int) =~= pkts);
        }

        Ok(OnUpdateOk::Complete)
    }
}

} // verus!
