//! LEAVE_WORLD: takes the caller out of its world, destroys the objects
//! private to its slot, and tells the session.

use crate::callback::{OnUpdateError, OnUpdateOk};
use crate::client::ClientID;
use crate::game::{is_first_client_idx, spec_private_of, GameModel};
use crate::games::{is_first_game_of_client, lemma_wf_update_no_new_client};
use crate::player::PlayerModel;
use crate::protocol::{Action, Packet, PacketModel};
use crate::server::{
    spec_outbox_view, spec_sends, spec_targets, ClientInfoModel, NotifyScope, Server,
};
use crate::utils::{lemma_deep_view_update, spec_i32_le, i32_le};
use crate::vanject::VanjectModel;
use vstd::prelude::*;

verus! {

/// Why LEAVE_WORLD was refused.
#[derive(Debug)]
pub enum LeaveWorldError {
    /// The caller is in no session.
    PlayerNotFound(ClientID),
    /// The caller holds no slot.
    PlayerNotBind(ClientID),
    /// The caller is in no world.
    WorldEmpty(ClientID),
}

/// The DELETE_OBJECT fan-out for one destroyed private object: its id, the
/// departing slot, and the object's last time stamp.
pub open spec fn spec_leave_delete_packet(vid: i32, bind: u8, time: i32) -> PacketModel {
    PacketModel {
        event_size: 10,
        action: Action::DELETE_OBJECT,
        real_action: 0x04,
        data: spec_i32_le(vid) + seq![bind] + spec_i32_le(time),
    }
}

/// The fan-outs for a list of destroyed private objects, in order.
pub open spec fn spec_leave_delete_sends(
    clients: Seq<ClientInfoModel>,
    targets: Set<ClientID>,
    pairs: Seq<(i32, i32)>,
    bind: u8,
) -> Seq<(ClientID, PacketModel)>
    decreases pairs.len(),
{
    if pairs.len() == 0 {
        Seq::empty()
    } else {
        spec_leave_delete_sends(clients, targets, pairs.drop_last(), bind) + spec_sends(
            clients,
            targets,
            spec_leave_delete_packet(pairs.last().0, bind, pairs.last().1),
        )
    }
}

/// The PLAYERS_WORLD note that a slot stands in no world.
pub open spec fn spec_world_zero_packet(bind: u8) -> PacketModel {
    PacketModel {
        event_size: 3,
        action: Action::PLAYERS_WORLD,
        real_action: 0xD1,
        data: seq![bind, 0u8],
    }
}

/// What the world-leaving cleanup does to the sessions and the outbox,
/// with the result mapped to its error: everything is determined by the
/// state and the caller alone.
pub open spec fn spec_leave_world_effect(pre: Server, post: Server, client_id: ClientID) -> bool {
    &&& (pre.wf() ==> post.wf())
    &&& post.games_id_uniq == pre.games_id_uniq
    &&& post.games.games().len() == pre.games.games().len()
    &&& (!pre.games.spec_has_client(client_id) ==> post.games.games() == pre.games.games()
        && post.outbox == pre.outbox)
    &&& forall|gi: int, pi: int|
        #[trigger] is_first_game_of_client(pre.games.games(), client_id, gi)
            && #[trigger] is_first_client_idx(
            pre.games.games()[gi].players,
            client_id,
            pi,
        ) ==> {
            let g = pre.games.games()[gi];
            let p = g.players[pi];
            if p.bind is None || p.world is None {
                post.games.games() == pre.games.games() && post.outbox == pre.outbox
            } else {
                let bind = p.bind->0;
                let p2 = PlayerModel { world: None::<u8>, ..p };
                let g2 = GameModel {
                    players: g.players.update(pi, p2),
                    vanjects: g.vanjects.filter(|v: VanjectModel| !spec_private_of(v, bind)),
                    ..g
                };
                let pairs = g.vanjects.filter(
                    |v: VanjectModel| spec_private_of(v, bind),
                ).map_values(|v: VanjectModel| (v.id, v.time));
                let targets = spec_targets(g2, NotifyScope::Except(client_id));
                &&& post.games.games() == pre.games.games().update(gi, g2)
                &&& spec_outbox_view(post.outbox@) == spec_outbox_view(pre.outbox@)
                    + spec_leave_delete_sends(pre.clients.deep_view(), targets, pairs, bind)
                    + spec_sends(
                    pre.clients.deep_view(),
                    targets,
                    spec_world_zero_packet(bind),
                )
                &&& forall|k: int|
                    0 <= k < post.games.games()[gi].vanjects.len() ==> !spec_private_of(
                        #[trigger] post.games.games()[gi].vanjects[k],
                        bind,
                    )
            }
        }
}

impl Server {
    /// Clears the caller's world reference, destroys every object private to
    /// the caller's slot, announces one deletion per destroyed object to the
    /// session peers, and finally announces the slot standing in no world.
    /// Afterwards no private object of the slot remains in the session.
    /// Errs, changing nothing, when the caller is in no session, unbound, or
    /// in no world.
    pub fn leave_world(&mut self, packet: &Packet, client_id: ClientID) -> (r: Result<
        OnUpdateOk,
        OnUpdateError,
    >)
        ensures
            spec_leave_world_effect(*old(self), *final(self), client_id),
            r matches Err(e) ==> !(e is NotImplementedAction),
            final(self).clients == old(self).clients,
            final(self).port == old(self).port,
            final(self).uptime == old(self).uptime,
            r is Err ==> final(self).games.games() == old(self).games.games() && final(self).outbox
                == old(self).outbox,
            r matches Ok(ok) ==> ok is Complete,
            !old(self).games.spec_has_client(client_id) ==> (r matches Err(
                OnUpdateError::LeaveWorldError(LeaveWorldError::PlayerNotFound(c)),
            ) && c == client_id),
            forall|gi: int, pi: int|
                #[trigger] is_first_game_of_client(old(self).games.games(), client_id, gi)
                    && #[trigger] is_first_client_idx(
                    old(self).games.games()[gi].players,
                    client_id,
                    pi,
                ) ==> {
                    let p = old(self).games.games()[gi].players[pi];
                    if p.bind is None {
                        (r matches Err(OnUpdateError::LeaveWorldError(
                            LeaveWorldError::PlayerNotBind(c),
                        )) && c == client_id)
                    } else if p.world is None {
                        (r matches Err(OnUpdateError::LeaveWorldError(
                            LeaveWorldError::WorldEmpty(c),
                        )) && c == client_id)
                    } else {
                        r is Ok
                    }
                },
    {
        let gi = match self.games.game_index_by_client(client_id) {
            Some(gi) => gi,
            None => {
                return Err(
                    OnUpdateError::LeaveWorldError(LeaveWorldError::PlayerNotFound(client_id)),
                );
            },
        };
        let pi = match self.games.0[gi].player_index(client_id) {
            Some(pi) => pi,
            None => {
                proof {
                    assert(false);
                }
                0
            },
        };
        let bind = match &self.games.0[gi].players[pi].bind {
            Some(b) => b.id(),
            None => {
                return Err(
                    OnUpdateError::LeaveWorldError(LeaveWorldError::PlayerNotBind(client_id)),
                );
            },
        };
        if self.games.0[gi].players[pi].world.is_none() {
            return Err(OnUpdateError::LeaveWorldError(LeaveWorldError::WorldEmpty(client_id)));
        }

        let ghost gs1 = self.games.0;
        let ghost ps1 = self.games.0@[gi as int].players;
        self.games.0[gi].players[pi].world = None;
        proof {
            lemma_deep_view_update(&ps1, &self.games.0@[gi as int].players, pi as int);
            lemma_deep_view_update(&gs1, &self.games.0, gi as int);
            if old(self).wf() {
                let gm2 = self.games.games()[gi as int];
                let gm1 = old(self).games.games()[gi as int];
                assert(gm2.players =~= gm1.players.update(
                    pi as int,
                    gm2.players[pi as int],
                ));
                assert forall|a: int, b: int|
                    0 <= a < b < gm2.players.len() && #[trigger] gm2.players[a].bind is Some
                        && #[trigger] gm2.players[b].bind is Some implies gm2.players[a].bind->0
                    != gm2.players[b].bind->0 by {
                    assert(gm2.players[a].bind == gm1.players[a].bind);
                    assert(gm2.players[b].bind == gm1.players[b].bind);
                };
                assert forall|a: int|
                    0 <= a < gm2.players.len() && #[trigger] gm2.players[a].bind
                        is Some implies 1 <= gm2.players[a].bind->0 <= 31 by {
                    assert(gm2.players[a].bind == gm1.players[a].bind);
                };
                assert forall|a: int, b: int|
                    0 <= a < b < gm2.players.len() implies #[trigger] gm2.players[a].client_id
                    != #[trigger] gm2.players[b].client_id by {
                    assert(gm2.players[a].client_id == gm1.players[a].client_id);
                    assert(gm2.players[b].client_id == gm1.players[b].client_id);
                };
                assert(gm2.worlds == gm1.worlds);
                assert(gm2.vanjects == gm1.vanjects);
                assert(gm2.wf());
            }
        }

        let ghost gs2 = self.games.0;
        let removed = self.games.0[gi].remove_private_of_slot(bind);
        proof {
            lemma_deep_view_update(&gs2, &self.games.0, gi as int);
            let pre = old(self).games;
            let post = self.games;
            assert(post.games() =~= pre.games().update(gi as int, post.games()[gi as int]));
            assert(post.games()[gi as int].players =~= pre.games()[gi as int].players.update(
                pi as int,
                PlayerModel {
                    world: None::<u8>,
                    ..pre.games()[gi as int].players[pi as int]
                },
            ));
            if old(self).wf() {
                assert forall|c: ClientID|
                    #[trigger] post.games()[gi as int].spec_has_client(c) implies pre.games()[
                    gi as int
                ].spec_has_client(c) by {
                    let w = choose|w: int|
                        crate::game::is_client_idx(post.games()[gi as int].players, c, w);
                    assert(crate::game::is_client_idx(pre.games()[gi as int].players, c, w));
                };
                assert(post.games()[gi as int].wf());
                lemma_wf_update_no_new_client(&pre, &post, gi as int);
                assert(self.wf());
            }
            assert(crate::game::is_client_idx(
                self.games.games()[gi as int].players,
                client_id,
                pi as int,
            ));
            assert forall|j: int| 0 <= j < gi implies !(#[trigger] self.games.games()[
                j
            ].spec_has_client(client_id)) by {
                assert(self.games.games()[j] == old(self).games.games()[j]);
            };
            assert(is_first_game_of_client(self.games.games(), client_id, gi as int));
        }

        let ghost g2_now = self.games.games()[gi as int];
        let ghost targets = spec_targets(g2_now, NotifyScope::Except(client_id));
        let ghost ob_base = self.outbox@;
        let ghost pairs = removed@;

        let mut k: usize = 0;
        while k < removed.len()
            invariant
                k <= removed@.len(),
                removed@ == pairs,
                self.clients == old(self).clients,
                self.games_id_uniq == old(self).games_id_uniq,
                self.port == old(self).port,
                self.uptime == old(self).uptime,
                gi < self.games.games().len(),
                is_first_game_of_client(self.games.games(), client_id, gi as int),
                self.games.games() == old(self).games.games().update(gi as int, g2_now),
                g2_now == self.games.games()[gi as int],
                targets == spec_targets(g2_now, NotifyScope::Except(client_id)),
                spec_outbox_view(self.outbox@) == spec_outbox_view(ob_base)
                    + spec_leave_delete_sends(
                    old(self).clients.deep_view(),
                    targets,
                    pairs.take(k as int),
                    bind,
                ),
            decreases removed@.len() - k,
        {
            let (vid, time) = removed[k];
            let mut ddata = i32_le(vid);
            ddata.push(bind);
            let mut time_bytes = i32_le(time);
            ddata.append(&mut time_bytes);
            proof {
                crate::utils::lemma_i32_le_inverse(vid);
                crate::utils::lemma_i32_le_inverse(time);
                assert(ddata@ =~= spec_i32_le(vid) + seq![bind] + spec_i32_le(time));
                assert(ddata@.len() == 9);
            }
            let delete_packet = Packet::new(Action::DELETE_OBJECT, ddata.as_slice());
            proof {
                assert(delete_packet@ =~= spec_leave_delete_packet(vid, bind, time));
            }
            let ghost ob_pre = self.outbox@;
            self.notify_game(client_id, &delete_packet);
            proof {
                assert(pairs.take(k + 1).drop_last() =~= pairs.take(k as int));
                assert(pairs.take(k + 1).last() == pairs[k as int]);
                assert(spec_outbox_view(self.outbox@) =~= spec_outbox_view(ob_base)
                    + spec_leave_delete_sends(
                    old(self).clients.deep_view(),
                    targets,
                    pairs.take(k + 1),
                    bind,
                ));
            }
            k = k + 1;
        }
        proof {
            assert(pairs.take(pairs.len() as int) =~= pairs);
        }

        let world_packet = Packet::new(Action::PLAYERS_WORLD, &[bind, 0u8]);
        proof {
            assert(world_packet@.data =~= seq![bind, 0u8]);
            assert(world_packet@ =~= spec_world_zero_packet(bind));
        }
        self.notify_game(client_id, &world_packet);

        Ok(OnUpdateOk::Complete)
    }
}

} // verus!
