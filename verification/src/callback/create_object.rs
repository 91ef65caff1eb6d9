//! CREATE_OBJECT: parses a new object, binds it to the caller's slot, stores
//! it, and fans it out; an avatar also carries its player's position and
//! statistics blob.

use crate::body::spec_body_from;
use crate::callback::update_object::{spec_position_packet, spec_update_packet};
use crate::callback::{OnUpdateError, OnUpdateOk};
use crate::client::ClientID;
use crate::game::{is_first_client_idx, GameModel};
use crate::games::{is_first_game_of_client, lemma_wf_update_no_new_client};
use crate::player::PlayerModel;
use crate::protocol::{Action, Packet, PacketModel};
use crate::server::{spec_outbox_view, spec_sends, spec_targets, NotifyScope, Server};
use crate::utils::lemma_deep_view_update;
use crate::vanject::{
    spec_create_ok, spec_created, spec_pos_le, spec_vanject_type, spec_vanject_wire, Vanject,
    VanjectError, VanjectModel, NID_VANGER,
};
use vstd::prelude::*;

verus! {

/// Why CREATE_OBJECT was refused.
#[derive(Debug)]
pub enum CreateObjectError {
    /// The payload does not parse as an object.
    SliceToVanjectParse(VanjectError),
    /// The caller is in no session.
    PlayerNotFound(ClientID),
    /// The caller holds no slot.
    PlayerNotBind(ClientID),
}

/// Everything this handler's contract states, over the states before and
/// after the call, the packet value, the caller, and the result with its
/// success payload erased.
pub open spec fn spec_create_object_post(
    pre: Server,
    post: Server,
    pm: PacketModel,
    client_id: ClientID,
    r: Result<(), OnUpdateError>,
) -> bool {
    &&& (r matches Err(e) ==> !(e is NotImplementedAction))
    &&& (pre.wf() ==> post.wf())
    &&& (post.clients == pre.clients)
    &&& (post.games_id_uniq == pre.games_id_uniq)
    &&& (post.port == pre.port)
    &&& (post.uptime == pre.uptime)
    &&& (r is Err ==> post.games.games() == pre.games.games() && post.outbox
                == pre.outbox)
    &&& (!spec_create_ok(pm.data) ==> r matches Err(OnUpdateError::CreateObjectError(
                CreateObjectError::SliceToVanjectParse(_),
            )))
    &&& (spec_create_ok(pm.data) && !pre.games.spec_has_client(client_id) ==> (r
                matches Err(OnUpdateError::CreateObjectError(CreateObjectError::PlayerNotFound(c)))
                && c == client_id))
    &&& (forall|gi: int, pi: int|
                #[trigger] is_first_game_of_client(pre.games.games(), client_id, gi)
                    && #[trigger] is_first_client_idx(
                    pre.games.games()[gi].players,
                    client_id,
                    pi,
                ) && spec_create_ok(pm.data) ==> {
                    let g = pre.games.games()[gi];
                    let p = g.players[pi];
                    let v = spec_created(pm.data);
                    if g.spec_has_vanject(v.id) {
                        r is Ok && post.games.games() == pre.games.games() && post.outbox == pre.outbox
                    } else if p.bind is None {
                        (r matches Err(OnUpdateError::CreateObjectError(
                            CreateObjectError::PlayerNotBind(c),
                        )) && c == client_id)
                    } else {
                        let v2 = VanjectModel { player_bind_id: p.bind->0, ..v };
                        let vanger = spec_vanject_type(v.id) == NID_VANGER;
                        let body_ok = v.body.len() >= 25;
                        let p2 = if vanger {
                            PlayerModel {
                                pos: v.pos,
                                body: if body_ok {
                                    Some(spec_body_from(v.body))
                                } else {
                                    p.body
                                },
                                ..p
                            }
                        } else {
                            p
                        };
                        let g2 = GameModel {
                            players: g.players.update(pi, p2),
                            vanjects: g.vanjects.push(v2),
                            ..g
                        };
                        let fits = spec_vanject_wire(v2).len() + 2 <= 32767;
                        &&& r is Ok
                        &&& post.games.games() == pre.games.games().update(gi, g2)
                        &&& (vanger && body_ok && fits ==> spec_outbox_view(post.outbox@)
                            == spec_outbox_view(pre.outbox@) + spec_sends(
                            pre.clients.deep_view(),
                            spec_targets(g2, NotifyScope::Except(client_id)),
                            spec_update_packet(v2),
                        ) + spec_sends(
                            pre.clients.deep_view(),
                            spec_targets(g2, NotifyScope::Except(client_id)),
                            spec_position_packet(p.bind->0, v.pos),
                        ))
                        &&& (vanger && !body_ok ==> post.outbox == pre.outbox)
                        &&& (vanger && body_ok && !fits ==> post.outbox == pre.outbox)
                        &&& (!vanger && fits ==> spec_outbox_view(post.outbox@)
                            == spec_outbox_view(pre.outbox@) + spec_sends(
                            pre.clients.deep_view(),
                            spec_targets(g2, NotifyScope::Except(client_id)),
                            spec_update_packet(v2),
                        ))
                        &&& (!vanger && !fits ==> post.outbox == pre.outbox)
                    }
                })
}

impl Server {
    /// Parses a new object from the payload, stamps it with the caller's
    /// slot and stores it in the caller's session; an id the session already
    /// holds is silently ignored. An avatar moves its player and carries the
    /// player's statistics blob; the new state fans out to the session
    /// peers, except that an avatar whose blob is short fans out nothing.
    /// Errs, changing nothing, on a short payload or when the caller is in
    /// no session or unbound.
    pub fn create_object(&mut self, packet: &Packet, client_id: ClientID) -> (r: Result<
        OnUpdateOk,
        OnUpdateError,
    >)
        ensures
            spec_create_object_post(
                *old(self),
                *final(self),
                packet@,
                client_id,
                (match r {
                    Ok(_) => Ok::<(), OnUpdateError>(()),
                    Err(e) => Err(e),
                }),
            ),
            r matches Ok(ok) ==> ok is Complete,
    {
        let mut vanject = match Vanject::create_from_slice(packet.data.as_slice()) {
            Ok(vanject) => vanject,
            Err(err) => {
                return Err(
                    OnUpdateError::CreateObjectError(CreateObjectError::SliceToVanjectParse(err)),
                );
            },
        };

        let gi = match self.games.game_index_by_client(client_id) {
            Some(gi) => gi,
            None => {
                return Err(
                    OnUpdateError::CreateObjectError(CreateObjectError::PlayerNotFound(client_id)),
                );
            },
        };
        let pi = match self.games.0[gi].player_index(client_id) {
            Some(pi) => pi,
            None => {
                proof {
                    assert(false);
                }
                0
            },
        };

        if self.games.0[gi].vanject_index(vanject.id).is_some() {
            return Ok(OnUpdateOk::Complete);
        }

        let player_bind_id = match &self.games.0[gi].players[pi].bind {
            Some(b) => b.id(),
            None => {
                return Err(
                    OnUpdateError::CreateObjectError(CreateObjectError::PlayerNotBind(client_id)),
                );
            },
        };
        vanject.player_bind_id = player_bind_id;
        let ghost v2 = vanject@;

        let vanger = get_type_is_vanger(&vanject);
        let vpos = vanject.pos;
        let mut body_ok = true;
        if vanger {
            let ghost gs1 = self.games.0;
            let ghost ps1 = self.games.0@[gi as int].players;
            self.games.0[gi].players[pi].pos = vpos;
            proof {
                lemma_deep_view_update(&ps1, &self.games.0@[gi as int].players, pi as int);
                lemma_deep_view_update(&gs1, &self.games.0, gi as int);
            }
            let ghost gs2 = self.games.0;
            let ghost ps2 = self.games.0@[gi as int].players;
            let set_result = self.games.0[gi].players[pi].set_body(vanject.body.as_slice());
            proof {
                lemma_deep_view_update(&ps2, &self.games.0@[gi as int].players, pi as int);
                lemma_deep_view_update(&gs2, &self.games.0, gi as int);
            }
            body_ok = set_result.is_ok();
        }

        let ghost gs3 = self.games.0;
        let ghost g_mid = self.games.games()[gi as int];
        let wire = vanject.to_vangers_byte();
        self.games.0[gi].insert_vanject(vanject);
        proof {
            lemma_deep_view_update(&gs3, &self.games.0, gi as int);
            let pre = old(self).games;
            let post = self.games;
            assert(post.games() =~= pre.games().update(gi as int, post.games()[gi as int]));
            assert(post.games()[gi as int].players =~= pre.games()[gi as int].players.update(
                pi as int,
                post.games()[gi as int].players[pi as int],
            ));
            assert(post.games()[gi as int].vanjects =~= pre.games()[gi as int].vanjects.push(v2));
            if old(self).wf() {
                assert forall|c: ClientID|
                    #[trigger] post.games()[gi as int].spec_has_client(c) implies pre.games()[
                    gi as int
                ].spec_has_client(c) by {
                    let w = choose|w: int|
                        crate::game::is_client_idx(post.games()[gi as int].players, c, w);
                    assert(crate::game::is_client_idx(pre.games()[gi as int].players, c, w));
                };
                let gm2 = post.games()[gi as int];
                let gm1 = pre.games()[gi as int];
                let n = gm1.vanjects.len() as int;
                assert forall|a: int, b: int|
                    0 <= a < b < gm2.vanjects.len() implies #[trigger] gm2.vanjects[a].id
                    != #[trigger] gm2.vanjects[b].id by {
                    if b == n && gm2.vanjects[a].id == v2.id {
                        assert(gm1.spec_has_vanject(v2.id));
                    }
                };
                assert forall|a: int, b: int|
                    0 <= a < b < gm2.players.len() && #[trigger] gm2.players[a].bind is Some
                        && #[trigger] gm2.players[b].bind is Some implies gm2.players[a].bind->0
                    != gm2.players[b].bind->0 by {
                    assert(gm2.players[a].bind == gm1.players[a].bind);
                    assert(gm2.players[b].bind == gm1.players[b].bind);
                };
                assert forall|a: int|
                    0 <= a < gm2.players.len() && #[trigger] gm2.players[a].bind
                        is Some implies 1 <= gm2.players[a].bind->0 <= 31 by {
                    assert(gm2.players[a].bind == gm1.players[a].bind);
                };
                assert forall|a: int, b: int|
                    0 <= a < b < gm2.players.len() implies #[trigger] gm2.players[a].client_id
                    != #[trigger] gm2.players[b].client_id by {
                    assert(gm2.players[a].client_id == gm1.players[a].client_id);
                    assert(gm2.players[b].client_id == gm1.players[b].client_id);
                };
                assert(gm2.worlds == gm1.worlds);
                assert(post.games()[gi as int].wf());
                lemma_wf_update_no_new_client(&pre, &post, gi as int);
                assert(self.wf());
            }
            assert(crate::game::is_client_idx(
                self.games.games()[gi as int].players,
                client_id,
                pi as int,
            ));
            assert forall|j: int| 0 <= j < gi implies !(#[trigger] self.games.games()[
                j
            ].spec_has_client(client_id)) by {
                assert(self.games.games()[j] == old(self).games.games()[j]);
            };
            assert(is_first_game_of_client(self.games.games(), client_id, gi as int));
        }

        let ghost g2_now = self.games.games()[gi as int];
        let ghost ob_base = self.outbox@;
        proof {
            assert(wire@ == spec_vanject_wire(v2));
        }
        if (!vanger || body_ok) && wire.len() <= 32765 {
            let update_packet = Packet::new(Action::UPDATE_OBJECT, wire.as_slice());
            proof {
                assert(update_packet@ =~= spec_update_packet(v2));
            }
            self.notify_game(client_id, &update_packet);
            if vanger {
                proof {
                    assert(is_first_game_of_client(self.games.games(), client_id, gi as int));
                }
                let ghost ob_mid = self.outbox@;
                let mut pdata: Vec<u8> = Vec::new();
                pdata.push(player_bind_id);
                let mut pos_bytes = vpos.to_vangers_byte();
                pdata.append(&mut pos_bytes);
                proof {
                    assert(pdata@ =~= seq![player_bind_id] + spec_pos_le(vpos));
                }
                let position_packet = Packet::new(Action::PLAYERS_POSITION, pdata.as_slice());
                proof {
                    crate::utils::lemma_i16_le_inverse(vpos.x);
                    crate::utils::lemma_i16_le_inverse(vpos.y);
                    assert(pdata@.len() == 5);
                    assert(position_packet@ =~= spec_position_packet(player_bind_id, vpos));
                }
                self.notify_game(client_id, &position_packet);
                proof {
                    assert(spec_outbox_view(self.outbox@) =~= spec_outbox_view(ob_base)
                        + spec_sends(
                        old(self).clients.deep_view(),
                        spec_targets(g2_now, NotifyScope::Except(client_id)),
                        spec_update_packet(v2),
                    ) + spec_sends(
                        old(self).clients.deep_view(),
                        spec_targets(g2_now, NotifyScope::Except(client_id)),
                        spec_position_packet(player_bind_id, vpos),
                    ));
                }
            }
        }

        Ok(OnUpdateOk::Complete)
    }
}

/// Whether the object is a player's avatar.
fn get_type_is_vanger(v: &Vanject) -> (r: bool)
    ensures
        r == (spec_vanject_type(v.id) == NID_VANGER),
{
    v.get_type() == NID_VANGER
}

} // verus!
