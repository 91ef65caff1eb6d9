//! UPDATE_OBJECT: overwrites a stored object from the wire and fans the new
//! state out; an avatar update also moves its player.

use crate::callback::{OnUpdateError, OnUpdateOk};
use crate::client::ClientID;
use crate::game::{is_first_client_idx, GameModel};
use crate::games::{is_first_game_of_client, lemma_wf_update_no_new_client};
use crate::player::PlayerModel;
use crate::protocol::{Action, Packet, PacketModel};
use crate::server::{spec_outbox_view, spec_sends, spec_targets, NotifyScope, Server};
use crate::utils::{lemma_deep_view_update, slice_le_to_i32, spec_i32_from_le};
use crate::vanject::{
    spec_pos_le, spec_update_ok, spec_updated, spec_vanject_type, spec_vanject_wire, VanjectError,
    VanjectModel, NID_VANGER,
};
use vstd::prelude::*;

verus! {

/// Why UPDATE_OBJECT was refused.
#[derive(Debug)]
pub enum UpdateObjectError {
    /// The payload cannot even hold an object id.
    SliceTooSmall,
    /// The payload does not parse against the stored object.
    SliceToVanjectParse(VanjectError),
    /// The caller is in no session.
    PlayerNotFound(ClientID),
    /// The session stores no object of the given id.
    VanjectNotFound(i32),
    /// The caller holds no slot.
    PlayerNotBind(ClientID),
}

/// The UPDATE_OBJECT fan-out carrying an object's wire form.
pub open spec fn spec_update_packet(v: VanjectModel) -> PacketModel {
    PacketModel {
        event_size: (spec_vanject_wire(v).len() + 1) as i16,
        action: Action::UPDATE_OBJECT,
        real_action: 0x08,
        data: spec_vanject_wire(v),
    }
}

/// The PLAYERS_POSITION fan-out: the owner slot then the position.
pub open spec fn spec_position_packet(bind: u8, pos: crate::vanject::Pos<i16>) -> PacketModel {
    PacketModel {
        event_size: 6,
        action: Action::PLAYERS_POSITION,
        real_action: 0xCF,
        data: seq![bind] + spec_pos_le(pos),
    }
}

/// Everything this handler's contract states, over the states before and
/// after the call, the packet value, the caller, and the result with its
/// success payload erased.
pub open spec fn spec_update_object_post(
    pre: Server,
    post: Server,
    pm: PacketModel,
    client_id: ClientID,
    r: Result<(), OnUpdateError>,
) -> bool {
    &&& (r matches Err(e) ==> !(e is NotImplementedAction))
    &&& (pre.wf() ==> post.wf())
    &&& (post.clients == pre.clients)
    &&& (post.games_id_uniq == pre.games_id_uniq)
    &&& (post.port == pre.port)
    &&& (post.uptime == pre.uptime)
    &&& (r is Err ==> post.games.games() == pre.games.games() && post.outbox == pre.outbox)
    &&& (pm.data.len() < 4 ==> r matches Err(OnUpdateError::UpdateObjectError(
                UpdateObjectError::SliceTooSmall,
            )))
    &&& (pm.data.len() >= 4 && !pre.games.spec_has_client(client_id) ==> (r
                matches Err(OnUpdateError::UpdateObjectError(UpdateObjectError::PlayerNotFound(c)))
                && c == client_id))
    &&& (forall|gi: int, pi: int, vi: int|
                #[trigger] is_first_game_of_client(pre.games.games(), client_id, gi)
                    && #[trigger] is_first_client_idx(
                    pre.games.games()[gi].players,
                    client_id,
                    pi,
                ) && pm.data.len() >= 4
                    && #[trigger] crate::callback::delete_object::is_first_vanject_idx(
                    pre.games.games()[gi].vanjects,
                    spec_i32_from_le(pm.data.subrange(0, 4)),
                    vi,
                ) ==> {
                    let g = pre.games.games()[gi];
                    let p = g.players[pi];
                    let d = pm.data;
                    let v = g.vanjects[vi];
                    if p.bind is None {
                        (r matches Err(OnUpdateError::UpdateObjectError(
                            UpdateObjectError::PlayerNotBind(c),
                        )) && c == client_id)
                    } else if !spec_update_ok(v, d) {
                        r matches Err(OnUpdateError::UpdateObjectError(
                            UpdateObjectError::SliceToVanjectParse(_),
                        ))
                    } else {
                        let v2 = VanjectModel { player_bind_id: p.bind->0, ..spec_updated(v, d) };
                        let vanger = spec_vanject_type(v.id) == NID_VANGER;
                        let p2 = if vanger {
                            PlayerModel { pos: v2.pos, ..p }
                        } else {
                            p
                        };
                        let g2 = GameModel {
                            players: g.players.update(pi, p2),
                            vanjects: g.vanjects.update(vi, v2),
                            ..g
                        };
                        let fits = spec_vanject_wire(v2).len() + 2 <= 32767;
                        &&& r is Ok
                        &&& post.games.games() == pre.games.games().update(gi, g2)
                        &&& (vanger && fits ==> spec_outbox_view(post.outbox@)
                            == spec_outbox_view(pre.outbox@) + spec_sends(
                            pre.clients.deep_view(),
                            spec_targets(g2, NotifyScope::Except(client_id)),
                            spec_position_packet(p.bind->0, v2.pos),
                        ) + spec_sends(
                            pre.clients.deep_view(),
                            spec_targets(g2, NotifyScope::Except(client_id)),
                            spec_update_packet(v2),
                        ))
                        &&& (!vanger && fits ==> spec_outbox_view(post.outbox@)
                            == spec_outbox_view(pre.outbox@) + spec_sends(
                            pre.clients.deep_view(),
                            spec_targets(g2, NotifyScope::Except(client_id)),
                            spec_update_packet(v2),
                        ))
                        &&& (!fits ==> post.outbox == pre.outbox)
                    }
                })
    &&& (forall|gi: int, pi: int|
                #[trigger] is_first_game_of_client(pre.games.games(), client_id, gi)
                    && #[trigger] is_first_client_idx(
                    pre.games.games()[gi].players,
                    client_id,
                    pi,
                ) && pm.data.len() >= 4 && pre.games.games()[gi].players[pi].bind
                    is Some && !pre.games.games()[gi].spec_has_vanject(
                    spec_i32_from_le(pm.data.subrange(0, 4)),
                ) ==> (r matches Err(OnUpdateError::UpdateObjectError(
                    UpdateObjectError::VanjectNotFound(vid),
                )) && vid == spec_i32_from_le(pm.data.subrange(0, 4))))
}

impl Server {
    /// Overwrites the stored object named in the payload with the wire's
    /// time, position and body, stamps it with the caller's slot, and fans
    /// the new state out to the session peers; for an avatar the caller's
    /// player follows the object's position and a position event goes out
    /// first. Errs, changing nothing, on a short or mismatched payload or
    /// when the caller is in no session or unbound or the object unknown.
    pub fn update_object(&mut self, packet: &Packet, client_id: ClientID) -> (r: Result<
        OnUpdateOk,
        OnUpdateError,
    >)
        ensures
            spec_update_object_post(
                *old(self),
                *final(self),
                packet@,
                client_id,
                (match r {
                    Ok(_) => Ok::<(), OnUpdateError>(()),
                    Err(e) => Err(e),
                }),
            ),
            r matches Ok(ok) ==> ok is Complete,
    {
        if packet.data.len() < 4 {
            return Err(OnUpdateError::UpdateObjectError(UpdateObjectError::SliceTooSmall));
        }

        let vanject_id = slice_le_to_i32(&packet.data.as_slice()[0..4]);

        let gi = match self.games.game_index_by_client(client_id) {
            Some(gi) => gi,
            None => {
                return Err(
                    OnUpdateError::UpdateObjectError(UpdateObjectError::PlayerNotFound(client_id)),
                );
            },
        };
        let pi = match self.games.0[gi].player_index(client_id) {
            Some(pi) => pi,
            None => {
                proof {
                    assert(false);
                }
                0
            },
        };
        let player_bind_id = match &self.games.0[gi].players[pi].bind {
            Some(b) => b.id(),
            None => {
                return Err(
                    OnUpdateError::UpdateObjectError(UpdateObjectError::PlayerNotBind(client_id)),
                );
            },
        };

        let vi = match self.games.0[gi].vanject_index(vanject_id) {
            Some(vi) => vi,
            None => {
                return Err(
                    OnUpdateError::UpdateObjectError(UpdateObjectError::VanjectNotFound(vanject_id)),
                );
            },
        };

        let ghost gs1 = self.games.0;
        let ghost vs1 = self.games.0@[gi as int].vanjects;
        let update_result = self.games.0[gi].vanjects[vi].update_from_slice(
            packet.data.as_slice(),
        );
        proof {
            lemma_deep_view_update(&vs1, &self.games.0@[gi as int].vanjects, vi as int);
            lemma_deep_view_update(&gs1, &self.games.0, gi as int);
        }
        if let Err(e) = update_result {
            proof {
                assert(self.games.0@[gi as int].vanjects@ =~= vs1@);
                crate::utils::lemma_deep_view_eq(&vs1, &self.games.0@[gi as int].vanjects);
                assert(self.games.games()[gi as int] =~= old(self).games.games()[gi as int]);
                assert(self.games.games() =~= old(self).games.games());
            }
            return Err(OnUpdateError::UpdateObjectError(UpdateObjectError::SliceToVanjectParse(e)));
        }

        let ghost gs2 = self.games.0;
        let ghost vs2 = self.games.0@[gi as int].vanjects;
        self.games.0[gi].vanjects[vi].player_bind_id = player_bind_id;
        proof {
            lemma_deep_view_update(&vs2, &self.games.0@[gi as int].vanjects, vi as int);
            lemma_deep_view_update(&gs2, &self.games.0, gi as int);
        }

        let vanger = self.games.0[gi].vanjects[vi].get_type() == NID_VANGER;
        let vpos = self.games.0[gi].vanjects[vi].pos;
        let ghost gs3 = self.games.0;
        let ghost ps3 = self.games.0@[gi as int].players;
        if vanger {
            self.games.0[gi].players[pi].pos = vpos;
            proof {
                lemma_deep_view_update(&ps3, &self.games.0@[gi as int].players, pi as int);
                lemma_deep_view_update(&gs3, &self.games.0, gi as int);
            }
        }

        proof {
            let pre = old(self).games;
            let post = self.games;
            assert(post.games() =~= pre.games().update(gi as int, post.games()[gi as int]));
            assert(post.games()[gi as int].players =~= pre.games()[gi as int].players.update(
                pi as int,
                post.games()[gi as int].players[pi as int],
            ));
            assert(post.games()[gi as int].vanjects =~= pre.games()[gi as int].vanjects.update(
                vi as int,
                post.games()[gi as int].vanjects[vi as int],
            ));
            if old(self).wf() {
                assert forall|c: ClientID|
                    #[trigger] post.games()[gi as int].spec_has_client(c) implies pre.games()[
                    gi as int
                ].spec_has_client(c) by {
                    let w = choose|w: int|
                        crate::game::is_client_idx(post.games()[gi as int].players, c, w);
                    assert(crate::game::is_client_idx(pre.games()[gi as int].players, c, w));
                };
                assert(post.games()[gi as int].vanjects[vi as int].id == pre.games()[
                    gi as int
                ].vanjects[vi as int].id);
                assert(post.games()[gi as int].players[pi as int].bind == pre.games()[
                    gi as int
                ].players[pi as int].bind);
                assert forall|a: int|
                    0 <= a < post.games()[gi as int].players.len() implies #[trigger] post.games()[
                    gi as int
                ].players[a].bind == pre.games()[gi as int].players[a].bind && post.games()[
                    gi as int
                ].players[a].client_id == pre.games()[gi as int].players[a].client_id by {};
                assert forall|a: int, b: int|
                    0 <= a < b < post.games()[gi as int].vanjects.len()
                        implies #[trigger] post.games()[gi as int].vanjects[a].id
                    != #[trigger] post.games()[gi as int].vanjects[b].id by {
                    assert(post.games()[gi as int].vanjects[a].id == pre.games()[
                        gi as int
                    ].vanjects[a].id);
                    assert(post.games()[gi as int].vanjects[b].id == pre.games()[
                        gi as int
                    ].vanjects[b].id);
                };
                let gm2 = post.games()[gi as int];
                let gm1 = pre.games()[gi as int];
                assert forall|a: int, b: int|
                    0 <= a < b < gm2.players.len() && #[trigger] gm2.players[a].bind is Some
                        && #[trigger] gm2.players[b].bind is Some implies gm2.players[a].bind->0
                    != gm2.players[b].bind->0 by {
                    assert(gm2.players[a].bind == gm1.players[a].bind);
                    assert(gm2.players[b].bind == gm1.players[b].bind);
                };
                assert forall|a: int|
                    0 <= a < gm2.players.len() && #[trigger] gm2.players[a].bind
                        is Some implies 1 <= gm2.players[a].bind->0 <= 31 by {
                    assert(gm2.players[a].bind == gm1.players[a].bind);
                };
                assert forall|a: int, b: int|
                    0 <= a < b < gm2.players.len() implies #[trigger] gm2.players[a].client_id
                    != #[trigger] gm2.players[b].client_id by {
                    assert(gm2.players[a].client_id == gm1.players[a].client_id);
                    assert(gm2.players[b].client_id == gm1.players[b].client_id);
                };
                assert(gm2.worlds == gm1.worlds);
                assert(post.games()[gi as int].wf());
                lemma_wf_update_no_new_client(&pre, &post, gi as int);
                assert(self.wf());
            }
            assert(crate::game::is_client_idx(
                self.games.games()[gi as int].players,
                client_id,
                pi as int,
            ));
            assert forall|j: int| 0 <= j < gi implies !(#[trigger] self.games.games()[
                j
            ].spec_has_client(client_id)) by {
                assert(self.games.games()[j] == old(self).games.games()[j]);
            };
            assert(is_first_game_of_client(self.games.games(), client_id, gi as int));
        }

        let ghost d = packet@.data;
        let ghost v_old = old(self).games.games()[gi as int].vanjects[vi as int];
        let ghost v2 = VanjectModel { player_bind_id, ..spec_updated(v_old, d) };
        let ghost g2_now = self.games.games()[gi as int];
        proof {
            assert(self.games.games()[gi as int].vanjects[vi as int] == v2);
            assert(vanger == (spec_vanject_type(v_old.id) == NID_VANGER));
            assert(vpos == v2.pos);
            if vanger {
                assert(self.games.games()[gi as int].players[pi as int] == (PlayerModel {
                    pos: v2.pos,
                    ..old(self).games.games()[gi as int].players[pi as int]
                }));
            }
        }
        let ghost ob_base = self.outbox@;
        let wire = self.games.0[gi].vanjects[vi].to_vangers_byte();
        proof {
            assert(wire@ == spec_vanject_wire(v2));
        }
        if wire.len() <= 32765 {
            if vanger {
                let mut pdata: Vec<u8> = Vec::new();
                pdata.push(player_bind_id);
                let mut pos_bytes = vpos.to_vangers_byte();
                pdata.append(&mut pos_bytes);
                proof {
                    assert(pdata@ =~= seq![player_bind_id] + spec_pos_le(vpos));
                }
                let position_packet = Packet::new(Action::PLAYERS_POSITION, pdata.as_slice());
                proof {
                    crate::utils::lemma_i16_le_inverse(vpos.x);
                    crate::utils::lemma_i16_le_inverse(vpos.y);
                    assert(pdata@.len() == 5);
                    assert(position_packet@ =~= spec_position_packet(player_bind_id, v2.pos));
                }
                self.notify_game(client_id, &position_packet);
                proof {
                    assert(spec_outbox_view(self.outbox@) == spec_outbox_view(ob_base)
                        + spec_sends(
                        old(self).clients.deep_view(),
                        spec_targets(g2_now, NotifyScope::Except(client_id)),
                        spec_position_packet(player_bind_id, v2.pos),
                    ));
                    assert(is_first_game_of_client(self.games.games(), client_id, gi as int));
                }
            }
            let ghost ob_mid = self.outbox@;
            let update_packet = Packet::new(Action::UPDATE_OBJECT, wire.as_slice());
            proof {
                assert(update_packet@ =~= spec_update_packet(v2));
            }
            self.notify_game(client_id, &update_packet);
            proof {
                assert(spec_outbox_view(self.outbox@) == spec_outbox_view(ob_mid) + spec_sends(
                    old(self).clients.deep_view(),
                    spec_targets(g2_now, NotifyScope::Except(client_id)),
                    spec_update_packet(v2),
                ));
                if vanger {
                    assert(spec_outbox_view(self.outbox@) =~= spec_outbox_view(ob_base)
                        + spec_sends(
                        old(self).clients.deep_view(),
                        spec_targets(g2_now, NotifyScope::Except(client_id)),
                        spec_position_packet(player_bind_id, v2.pos),
                    ) + spec_sends(
                        old(self).clients.deep_view(),
                        spec_targets(g2_now, NotifyScope::Except(client_id)),
                        spec_update_packet(v2),
                    ));
                }
            }
        }

        Ok(OnUpdateOk::Complete)
    }
}

} // verus!
