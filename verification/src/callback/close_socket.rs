//! CLOSE_SOCKET: runs the world-leaving cleanup, marks a playing caller
//! finished, removes the caller from its session, and tears the session down
//! when its last player leaves.

use crate::callback::leave_world::{
    spec_leave_delete_sends, spec_world_zero_packet, LeaveWorldError,
};
use crate::callback::{OnUpdateError, OnUpdateOk};
use crate::client::ClientID;
use crate::game::{is_first_client_idx, spec_private_of, GameModel};
use crate::games::is_first_game_of_client;
use crate::player::Status;
use crate::protocol::{Action, Packet, PacketModel};
use crate::server::{spec_outbox_view, spec_sends, spec_targets, NotifyScope, Server};
use crate::utils::lemma_deep_view_update;
use crate::vanject::VanjectModel;
use vstd::prelude::*;

verus! {

/// Why CLOSE_SOCKET was refused.
#[derive(Debug)]
pub enum CloseSocketError {
    /// The caller is in no session.
    PlayerNotFound(ClientID),
}

/// The PLAYERS_STATUS note that a slot finished playing.
pub open spec fn spec_status_finished_packet(bind: u8) -> PacketModel {
    PacketModel {
        event_size: 3,
        action: Action::PLAYERS_STATUS,
        real_action: 0xD2,
        data: seq![bind, 2u8],
    }
}

/// What tearing client `cid` out of its session does, `ok` saying whether a
/// session held the client at all. On a well-formed server: the world
/// cleanup destroys the slot's private objects and announces each, a playing
/// bound caller is announced finished, the player is removed, and an emptied
/// session is removed with it.
pub open spec fn spec_close_effect(pre: Server, post: Server, client_id: ClientID, ok: bool) -> bool {
    &&& (ok <==> pre.games.spec_has_client(client_id))
    &&& (!ok ==> post.games.games() == pre.games.games() && post.outbox == pre.outbox)
    &&& post.games_id_uniq == pre.games_id_uniq
    &&& (pre.wf() ==> post.wf())
    &&& (pre.wf() && ok ==> !post.games.spec_has_client(client_id))
    &&& (pre.wf() ==> forall|gi: int, pi: int|
        #[trigger] is_first_game_of_client(pre.games.games(), client_id, gi)
            && #[trigger] is_first_client_idx(
            pre.games.games()[gi].players,
            client_id,
            pi,
        ) ==> {
            let g = pre.games.games()[gi];
            let p = g.players[pi];
            let cleanup = p.bind is Some && p.world is Some;
            let bind = p.bind->0;
            let vf = if cleanup {
                g.vanjects.filter(|v: VanjectModel| !spec_private_of(v, bind))
            } else {
                g.vanjects
            };
            let g2 = GameModel { players: g.players.remove(pi), vanjects: vf, ..g };
            let targets = spec_targets(g, NotifyScope::Except(client_id));
            let pairs = g.vanjects.filter(|v: VanjectModel| spec_private_of(v, bind)).map_values(
                |v: VanjectModel| (v.id, v.time),
            );
            &&& (g.players.len() == 1 ==> post.games.games() == pre.games.games().remove(gi))
            &&& (g.players.len() != 1 ==> post.games.games() == pre.games.games().update(gi, g2))
            &&& spec_outbox_view(post.outbox@) == spec_outbox_view(pre.outbox@) + (if cleanup {
                spec_leave_delete_sends(pre.clients.deep_view(), targets, pairs, bind)
                    + spec_sends(
                    pre.clients.deep_view(),
                    targets,
                    spec_world_zero_packet(bind),
                )
            } else {
                Seq::empty()
            }) + (if p.bind is Some && p.status == Status::GAMING {
                spec_sends(
                    pre.clients.deep_view(),
                    targets,
                    spec_status_finished_packet(bind),
                )
            } else {
                Seq::empty()
            })
        })
}

impl Server {
    /// Cleans up after a departing client: leaves its world (destroying the
    /// slot's private objects), tells the session peers when a playing,
    /// bound caller finishes, removes the player from its session whether or
    /// not it holds a slot, and removes the session itself when no player
    /// remains. Errs, changing nothing, only when the caller is in no
    /// session.
    #[verifier::rlimit(100)]
    pub fn close_socket(&mut self, packet: &Packet, client_id: ClientID) -> (r: Result<
        OnUpdateOk,
        OnUpdateError,
    >)
        ensures
            spec_close_effect(*old(self), *final(self), client_id, r is Ok),
            r matches Err(e) ==> !(e is NotImplementedAction),
            r is Err ==> (r matches Err(OnUpdateError::CloseSocketError(
                CloseSocketError::PlayerNotFound(c),
            )) && c == client_id),
            r matches Ok(ok) ==> ok is Complete,
            final(self).clients == old(self).clients,
            final(self).port == old(self).port,
            final(self).uptime == old(self).uptime,
    {
        let _ = self.leave_world(packet, client_id);
        let ghost a_state = *self;

        let gi = match self.games.game_index_by_client(client_id) {
            Some(gi) => gi,
            None => {
                proof {
                    if old(self).games.spec_has_client(client_id) {
                        // a first session and player of the caller exist, and
                        // the world cleanup keeps the caller in its session
                        let gi0 = choose|i: int|
                            0 <= i < old(self).games.games().len() && (
                            #[trigger] old(self).games.games()[i]).spec_has_client(client_id);
                        crate::games::lemma_first_game_of_client_exists(
                            old(self).games.games(),
                            client_id,
                        );
                        let gi1 = choose|i: int|
                            is_first_game_of_client(old(self).games.games(), client_id, i);
                        crate::game::lemma_first_client_idx_exists(
                            old(self).games.games()[gi1].players,
                            client_id,
                        );
                        let pi1 = choose|i: int|
                            is_first_client_idx(
                                old(self).games.games()[gi1].players,
                                client_id,
                                i,
                            );
                        let p = old(self).games.games()[gi1].players[pi1];
                        if p.bind is Some && p.world is Some {
                            assert(a_state.games.games()[gi1].players[pi1].client_id
                                == client_id);
                            assert(crate::game::is_client_idx(
                                a_state.games.games()[gi1].players,
                                client_id,
                                pi1,
                            ));
                            assert(a_state.games.spec_has_client(client_id));
                        } else {
                            assert(a_state.games.games() == old(self).games.games());
                            assert(a_state.games.spec_has_client(client_id));
                        }
                        assert(false);
                    }
                }
                return Err(
                    OnUpdateError::CloseSocketError(CloseSocketError::PlayerNotFound(client_id)),
                );
            },
        };
        let pi = match self.games.0[gi].player_index(client_id) {
            Some(pi) => pi,
            None => {
                proof {
                    assert(false);
                }
                0
            },
        };
        let bind_opt: Option<u8> = match &self.games.0[gi].players[pi].bind {
            Some(b) => Some(b.id()),
            None => None,
        };
        let was_gaming = self.games.0[gi].players[pi].status == Status::GAMING;

        let ghost gs1 = self.games.0;
        let ghost ps1 = self.games.0@[gi as int].players;
        self.games.0[gi].players[pi].world = None;
        proof {
            lemma_deep_view_update(&ps1, &self.games.0@[gi as int].players, pi as int);
            lemma_deep_view_update(&gs1, &self.games.0, gi as int);
        }
        if was_gaming {
            let ghost gs2 = self.games.0;
            let ghost ps2 = self.games.0@[gi as int].players;
            self.games.0[gi].players[pi].status = Status::FINISHED;
            proof {
                lemma_deep_view_update(&ps2, &self.games.0@[gi as int].players, pi as int);
                lemma_deep_view_update(&gs2, &self.games.0, gi as int);
            }
        }
        proof {
            assert(self.games.games() =~= a_state.games.games().update(
                gi as int,
                self.games.games()[gi as int],
            ));
            assert(self.games.games()[gi as int].players =~= a_state.games.games()[
                gi as int
            ].players.update(pi as int, self.games.games()[gi as int].players[pi as int]));
            if old(self).wf() {
                let gm2 = self.games.games()[gi as int];
                let gm1 = a_state.games.games()[gi as int];
                assert forall|a: int, b: int|
                    0 <= a < b < gm2.players.len() && #[trigger] gm2.players[a].bind is Some
                        && #[trigger] gm2.players[b].bind is Some implies gm2.players[a].bind->0
                    != gm2.players[b].bind->0 by {
                    assert(gm2.players[a].bind == gm1.players[a].bind);
                    assert(gm2.players[b].bind == gm1.players[b].bind);
                };
                assert forall|a: int|
                    0 <= a < gm2.players.len() && #[trigger] gm2.players[a].bind
                        is Some implies 1 <= gm2.players[a].bind->0 <= 31 by {
                    assert(gm2.players[a].bind == gm1.players[a].bind);
                };
                assert forall|a: int, b: int|
                    0 <= a < b < gm2.players.len() implies #[trigger] gm2.players[a].client_id
                    != #[trigger] gm2.players[b].client_id by {
                    assert(gm2.players[a].client_id == gm1.players[a].client_id);
                    assert(gm2.players[b].client_id == gm1.players[b].client_id);
                };
                assert(gm2.worlds == gm1.worlds);
                assert(gm2.vanjects == gm1.vanjects);
                assert(gm2.wf());
                assert forall|c: ClientID|
                    #[trigger] gm2.spec_has_client(c) implies gm1.spec_has_client(c) by {
                    let w = choose|w: int| crate::game::is_client_idx(gm2.players, c, w);
                    assert(crate::game::is_client_idx(gm1.players, c, w));
                };
                crate::games::lemma_wf_update_no_new_client(&a_state.games, &self.games, gi as int);
                assert(self.games.wf());
            }
        }

        if was_gaming {
            match bind_opt {
                Some(bind) => {
                    let status_packet = Packet::new(Action::PLAYERS_STATUS, &[bind, 2u8]);
                    proof {
                        assert(status_packet@.data =~= seq![bind, 2u8]);
                        assert(status_packet@ =~= spec_status_finished_packet(bind));
                        assert(crate::game::is_client_idx(
                            self.games.games()[gi as int].players,
                            client_id,
                            pi as int,
                        ));
                        assert forall|j: int| 0 <= j < gi implies !(#[trigger] self.games.games()[
                            j
                        ].spec_has_client(client_id)) by {
                            assert(self.games.games()[j] == a_state.games.games()[j]);
                        };
                        assert(is_first_game_of_client(
                            self.games.games(),
                            client_id,
                            gi as int,
                        ));
                    }
                    self.notify_game(client_id, &status_packet);
                },
                None => {},
            }
        }
        let ghost m_state = *self;

        let game_id = self.games.0[gi].id;
        proof {
            assert forall|a: int|
                0 <= a < m_state.games.games()[gi as int].players.len()
                    implies #[trigger] m_state.games.games()[gi as int].players[a].client_id
                == a_state.games.games()[gi as int].players[a].client_id by {};
            assert(is_first_client_idx(
                m_state.games.games()[gi as int].players,
                client_id,
                pi as int,
            ));
        }
        let ghost gs3 = self.games.0;
        self.games.0[gi].remove_player(client_id);
        proof {
            lemma_deep_view_update(&gs3, &self.games.0, gi as int);
            assert(self.games.games() =~= m_state.games.games().update(
                gi as int,
                self.games.games()[gi as int],
            ));
            if old(self).wf() {
                let gm3 = self.games.games()[gi as int];
                assert(gm3.wf());
                assert(!gm3.spec_has_client(client_id));
                assert forall|c: ClientID|
                    #[trigger] gm3.spec_has_client(c) implies m_state.games.games()[
                    gi as int
                ].spec_has_client(c) by {
                    let w = choose|w: int| crate::game::is_client_idx(gm3.players, c, w);
                    let pm = m_state.games.games()[gi as int].players;
                    assert(gm3.players == pm.remove(pi as int));
                    let w0 = if w < pi {
                        w
                    } else {
                        w + 1
                    };
                    assert(crate::game::is_client_idx(pm, c, w0));
                };
                crate::games::lemma_wf_update_no_new_client(&m_state.games, &self.games, gi as int);
                assert(self.games.wf());
            }
        }
        let ghost b_state = *self;

        let now_empty = self.games.0[gi].players.len() == 0;
        if now_empty {
            self.games.remove(game_id);
        }

        proof {
            if old(self).wf() {
                // no session holds the departing client any more
                assert forall|j: int|
                    0 <= j < b_state.games.games().len() implies !(
                #[trigger] b_state.games.games()[j].spec_has_client(client_id)) by {
                    if j != gi {
                        assert(b_state.games.games()[j] == a_state.games.games()[j]);
                        if j < gi {
                            assert(!a_state.games.games()[j].spec_has_client(client_id));
                        } else {
                            assert(a_state.games.games()[gi as int].spec_has_client(client_id));
                            assert(!a_state.games.games()[j].spec_has_client(client_id));
                        }
                    }
                };
                if now_empty {
                    assert forall|j: int| 0 <= j < gi implies #[trigger] b_state.games.games()[
                        j
                    ].id != game_id by {
                        assert(b_state.games.games()[gi as int].id == game_id);
                    };
                    assert(crate::games::is_first_game_idx(
                        b_state.games.games(),
                        game_id,
                        gi as int,
                    ));
                    assert(self.games.games() == b_state.games.games().remove(gi as int));
                    assert forall|j: int|
                        0 <= j < self.games.games().len() implies !(#[trigger] self.games.games()[
                        j
                    ].spec_has_client(client_id)) by {
                        let jj = if j < gi {
                            j
                        } else {
                            j + 1
                        };
                        assert(self.games.games()[j] == b_state.games.games()[jj]);
                    };
                    assert(!self.games.spec_has_client(client_id));
                } else {
                    assert(!self.games.spec_has_client(client_id));
                }
                // no session is left empty
                assert forall|j: int|
                    0 <= j < self.games.games().len() implies (#[trigger] self.games.games()[
                    j
                ]).players.len() > 0 by {
                    if now_empty {
                        let jj = if j < gi {
                            j
                        } else {
                            j + 1
                        };
                        assert(self.games.games()[j] == b_state.games.games()[jj]);
                        assert(b_state.games.games()[jj] == a_state.games.games()[jj]);
                    } else {
                        if j != gi {
                            assert(self.games.games()[j] == a_state.games.games()[j]);
                        }
                    }
                };
                assert(self.wf());

                // the per-session equations of the effect predicate
                lemma_close_composition(
                    *old(self),
                    a_state,
                    m_state,
                    b_state,
                    *self,
                    client_id,
                    gi as int,
                    pi as int,
                    bind_opt,
                    was_gaming,
                    now_empty,
                    game_id,
                );
            }
        }

        Ok(OnUpdateOk::Complete)
    }
}

/// Chains the world cleanup, the status write and fan-out, the player's
/// removal, and the possible session removal into the per-session equations
/// of `spec_close_effect`.
#[verifier::rlimit(100)]
proof fn lemma_close_composition(
    pre: Server,
    a_state: Server,
    m_state: Server,
    b_state: Server,
    post: Server,
    client_id: ClientID,
    gie: int,
    pie: int,
    bind_opt: Option<u8>,
    was_gaming: bool,
    now_empty: bool,
    game_id: u32,
)
    requires
        pre.wf(),
        // the world cleanup's outcome
        crate::callback::leave_world::spec_leave_world_effect(pre, a_state, client_id),
        a_state.clients == pre.clients,
        // the found indexes on the cleaned state
        is_first_game_of_client(a_state.games.games(), client_id, gie),
        is_first_client_idx(a_state.games.games()[gie].players, client_id, pie),
        bind_opt == a_state.games.games()[gie].players[pie].bind,
        was_gaming == (a_state.games.games()[gie].players[pie].status == Status::GAMING),
        // the world/status writes
        m_state.games.games() == a_state.games.games().update(
            gie,
            m_state.games.games()[gie],
        ),
        gie < m_state.games.games().len(),
        m_state.games.games()[gie].players == a_state.games.games()[gie].players.update(
            pie,
            m_state.games.games()[gie].players[pie],
        ),
        m_state.games.games()[gie].players[pie] == (crate::player::PlayerModel {
            world: None,
            status: if was_gaming {
                Status::FINISHED
            } else {
                a_state.games.games()[gie].players[pie].status
            },
            ..a_state.games.games()[gie].players[pie]
        }),
        m_state.games.games()[gie].vanjects == a_state.games.games()[gie].vanjects,
        m_state.games.games()[gie].worlds == a_state.games.games()[gie].worlds,
        m_state.games.games()[gie].name == a_state.games.games()[gie].name,
        m_state.games.games()[gie].config == a_state.games.games()[gie].config,
        m_state.games.games()[gie].id == a_state.games.games()[gie].id,
        // the status fan-out
        (was_gaming && bind_opt is Some) ==> spec_outbox_view(m_state.outbox@)
            == spec_outbox_view(a_state.outbox@) + spec_sends(
            a_state.clients.deep_view(),
            spec_targets(
                m_state.games.games()[gie],
                NotifyScope::Except(client_id),
            ),
            spec_status_finished_packet(bind_opt->0),
        ),
        !(was_gaming && bind_opt is Some) ==> m_state.outbox == a_state.outbox,
        // the player's removal
        b_state.games.games() == m_state.games.games().update(gie, b_state.games.games()[gie]),
        b_state.games.games()[gie].players == m_state.games.games()[gie].players.remove(pie),
        b_state.games.games()[gie].vanjects == m_state.games.games()[gie].vanjects,
        b_state.games.games()[gie].worlds == m_state.games.games()[gie].worlds,
        b_state.games.games()[gie].name == m_state.games.games()[gie].name,
        b_state.games.games()[gie].config == m_state.games.games()[gie].config,
        b_state.games.games()[gie].id == m_state.games.games()[gie].id,
        b_state.outbox == m_state.outbox,
        game_id == b_state.games.games()[gie].id,
        // the possible session removal
        now_empty == (b_state.games.games()[gie].players.len() == 0),
        now_empty ==> post.games.games() == b_state.games.games().remove(gie),
        !now_empty ==> post.games.games() == b_state.games.games(),
        post.outbox == b_state.outbox,
    ensures
        forall|gi: int, pi: int|
            #[trigger] is_first_game_of_client(pre.games.games(), client_id, gi)
                && #[trigger] is_first_client_idx(
                pre.games.games()[gi].players,
                client_id,
                pi,
            ) ==> {
                let g = pre.games.games()[gi];
                let p = g.players[pi];
                let cleanup = p.bind is Some && p.world is Some;
                let bind = p.bind->0;
                let vf = if cleanup {
                    g.vanjects.filter(|v: VanjectModel| !spec_private_of(v, bind))
                } else {
                    g.vanjects
                };
                let g2 = GameModel { players: g.players.remove(pi), vanjects: vf, ..g };
                let targets = spec_targets(g, NotifyScope::Except(client_id));
                let pairs = g.vanjects.filter(
                    |v: VanjectModel| spec_private_of(v, bind),
                ).map_values(|v: VanjectModel| (v.id, v.time));
                &&& (g.players.len() == 1 ==> post.games.games() == pre.games.games().remove(gi))
                &&& (g.players.len() != 1 ==> post.games.games() == pre.games.games().update(
                    gi,
                    g2,
                ))
                &&& spec_outbox_view(post.outbox@) == spec_outbox_view(pre.outbox@) + (
                if cleanup {
                    spec_leave_delete_sends(pre.clients.deep_view(), targets, pairs, bind)
                        + spec_sends(
                        pre.clients.deep_view(),
                        targets,
                        spec_world_zero_packet(bind),
                    )
                } else {
                    Seq::empty()
                }) + (if p.bind is Some && p.status == Status::GAMING {
                    spec_sends(
                        pre.clients.deep_view(),
                        targets,
                        spec_status_finished_packet(bind),
                    )
                } else {
                    Seq::empty()
                })
            },
{
    assert forall|gi: int, pi: int|
        #[trigger] is_first_game_of_client(pre.games.games(), client_id, gi)
            && #[trigger] is_first_client_idx(
            pre.games.games()[gi].players,
            client_id,
            pi,
        ) implies {
        let g = pre.games.games()[gi];
        let p = g.players[pi];
        let cleanup = p.bind is Some && p.world is Some;
        let bind = p.bind->0;
        let vf = if cleanup {
            g.vanjects.filter(|v: VanjectModel| !spec_private_of(v, bind))
        } else {
            g.vanjects
        };
        let g2 = GameModel { players: g.players.remove(pi), vanjects: vf, ..g };
        let targets = spec_targets(g, NotifyScope::Except(client_id));
        let pairs = g.vanjects.filter(|v: VanjectModel| spec_private_of(v, bind)).map_values(
            |v: VanjectModel| (v.id, v.time),
        );
        &&& (g.players.len() == 1 ==> post.games.games() == pre.games.games().remove(gi))
        &&& (g.players.len() != 1 ==> post.games.games() == pre.games.games().update(gi, g2))
        &&& spec_outbox_view(post.outbox@) == spec_outbox_view(pre.outbox@) + (if cleanup {
            spec_leave_delete_sends(pre.clients.deep_view(), targets, pairs, bind) + spec_sends(
                pre.clients.deep_view(),
                targets,
                spec_world_zero_packet(bind),
            )
        } else {
            Seq::empty()
        }) + (if p.bind is Some && p.status == Status::GAMING {
            spec_sends(
                pre.clients.deep_view(),
                targets,
                spec_status_finished_packet(bind),
            )
        } else {
            Seq::empty()
        })
    } by {
        let g = pre.games.games()[gi];
        let p = g.players[pi];
        let cleanup = p.bind is Some && p.world is Some;
        let bind = p.bind->0;
        let vf = if cleanup {
            g.vanjects.filter(|v: VanjectModel| !spec_private_of(v, bind))
        } else {
            g.vanjects
        };
        let g2 = GameModel { players: g.players.remove(pi), vanjects: vf, ..g };
        // the world cleanup pins the intermediate session
        let a_game = a_state.games.games()[gi];
        if cleanup {
            assert(a_state.games.games() == pre.games.games().update(
                gi,
                GameModel {
                    players: g.players.update(
                        pi,
                        crate::player::PlayerModel { world: None, ..p },
                    ),
                    vanjects: g.vanjects.filter(|v: VanjectModel| !spec_private_of(v, bind)),
                    ..g
                },
            ));
        } else {
            assert(a_state.games.games() == pre.games.games());
        }
        // the found indexes are these very indexes
        assert(a_game.players[pi].client_id == client_id);
        assert forall|j: int| 0 <= j < gi implies !(#[trigger] a_state.games.games()[
            j
        ].spec_has_client(client_id)) by {
            assert(a_state.games.games()[j] == pre.games.games()[j]);
        };
        assert(crate::game::is_client_idx(a_game.players, client_id, pi));
        assert(is_first_game_of_client(a_state.games.games(), client_id, gi));
        assert(gie == gi);
        assert forall|j: int| 0 <= j < pi implies a_game.players[j].client_id != client_id by {
            assert(a_game.players[j].client_id == g.players[j].client_id);
        };
        assert(is_first_client_idx(a_game.players, client_id, pi));
        assert(pie == pi);
        assert(bind_opt == p.bind);
        assert(was_gaming == (p.status == Status::GAMING));

        // the final session contents
        assert(b_state.games.games()[gi].players =~= g.players.remove(pi));
        assert(b_state.games.games()[gi].vanjects == (if cleanup {
            g.vanjects.filter(|v: VanjectModel| !spec_private_of(v, bind))
        } else {
            g.vanjects
        }));
        assert(b_state.games.games()[gi] =~= g2);
        assert(b_state.games.games() =~= pre.games.games().update(gi, g2));
        if g.players.len() == 1 {
            assert(now_empty);
            assert(post.games.games() =~= pre.games.games().remove(gi));
        } else {
            assert(!now_empty);
            assert(post.games.games() == pre.games.games().update(gi, g2));
        }

        // the fan-outs, over one target set: the session's clients but the caller
        let targets = spec_targets(g, NotifyScope::Except(client_id));
        if cleanup {
            let t_l = spec_targets(
                GameModel {
                    players: g.players.update(
                        pi,
                        crate::player::PlayerModel { world: None, ..p },
                    ),
                    vanjects: g.vanjects.filter(|v: VanjectModel| !spec_private_of(v, bind)),
                    ..g
                },
                NotifyScope::Except(client_id),
            );
            assert forall|c: ClientID| #[trigger] t_l.contains(c) implies targets.contains(c) by {
                let w = choose|w: int|
                    crate::game::is_client_idx(
                        a_state.games.games()[gi].players,
                        c,
                        w,
                    );
                assert(crate::game::is_client_idx(g.players, c, w));
            };
            assert forall|c: ClientID| #[trigger] targets.contains(c) implies t_l.contains(c) by {
                let w = choose|w: int| crate::game::is_client_idx(g.players, c, w);
                assert(crate::game::is_client_idx(a_state.games.games()[gi].players, c, w));
            };
            assert(t_l =~= targets);
        }
        if was_gaming && bind_opt is Some {
            let t_m = spec_targets(m_state.games.games()[gi], NotifyScope::Except(client_id));
            assert forall|c: ClientID| #[trigger] t_m.contains(c) implies targets.contains(c) by {
                let w = choose|w: int|
                    crate::game::is_client_idx(
                        m_state.games.games()[gi].players,
                        c,
                        w,
                    );
                assert(m_state.games.games()[gi].players[w].client_id == g.players[w].client_id);
                assert(crate::game::is_client_idx(g.players, c, w));
            };
            assert forall|c: ClientID| #[trigger] targets.contains(c) implies t_m.contains(c) by {
                let w = choose|w: int| crate::game::is_client_idx(g.players, c, w);
                assert(m_state.games.games()[gi].players[w].client_id == g.players[w].client_id);
                assert(crate::game::is_client_idx(m_state.games.games()[gi].players, c, w));
            };
            assert(t_m =~= targets);
        }
        assert(a_state.clients.deep_view() =~= pre.clients.deep_view());
        assert(spec_outbox_view(post.outbox@) =~= spec_outbox_view(pre.outbox@) + (if cleanup {
            spec_leave_delete_sends(
                pre.clients.deep_view(),
                targets,
                g.vanjects.filter(|v: VanjectModel| spec_private_of(v, bind)).map_values(
                    |v: VanjectModel| (v.id, v.time),
                ),
                bind,
            ) + spec_sends(pre.clients.deep_view(), targets, spec_world_zero_packet(bind))
        } else {
            Seq::empty()
        }) + (if p.bind is Some && p.status == Status::GAMING {
            spec_sends(
                pre.clients.deep_view(),
                targets,
                spec_status_finished_packet(bind),
            )
        } else {
            Seq::empty()
        }));
    };
}

} // verus!
