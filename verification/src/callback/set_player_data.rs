//! SET_PLAYER_DATA: stores the caller's statistics blob and echoes it to the
//! session peers.

use crate::body::spec_body_from;
use crate::body::BodyModel;
use crate::callback::{OnUpdateError, OnUpdateOk};
use crate::client::ClientID;
use crate::config::{spec_mode_type, Type};
use crate::game::{is_first_client_idx, GameModel};
use crate::games::{is_first_game_of_client, lemma_wf_update_no_new_client};
use crate::player::PlayerModel;
use crate::protocol::{Action, Packet, PacketModel};
use crate::server::{spec_outbox_view, spec_sends, spec_targets, NotifyScope, Server};
use crate::utils::lemma_deep_view_update;
use vstd::prelude::*;

verus! {

/// Why SET_PLAYER_DATA was refused.
#[derive(Debug)]
pub enum SetPlayerDataError {
    /// The caller is in no session.
    PlayerNotFound(ClientID),
    /// The caller holds no slot.
    PlayerNotBind(ClientID),
    /// The payload is too short for a statistics blob; the session's game
    /// type rides along for the log.
    SliceToBodyParse(Type),
}

/// The game type of a session's configuration, `UNCONFIGURED` without one.
pub open spec fn spec_gmtype(g: GameModel) -> Type {
    match g.config {
        Some(c) => spec_mode_type(c.game_type),
        None => Type::UNCONFIGURED,
    }
}

/// The PLAYERS_DATA echo: the slot byte then the blob as received.
pub open spec fn spec_player_data_packet(bind: u8, d: Seq<u8>) -> PacketModel {
    PacketModel {
        event_size: (d.len() + 2) as i16,
        action: Action::PLAYERS_DATA,
        real_action: 0xD3,
        data: seq![bind] + d,
    }
}

/// Everything this handler's contract states, over the states before and
/// after the call, the packet value, the caller, and the result with its
/// success payload erased.
pub open spec fn spec_set_player_data_post(
    pre: Server,
    post: Server,
    pm: PacketModel,
    client_id: ClientID,
    r: Result<(), OnUpdateError>,
) -> bool {
    &&& (r matches Err(e) ==> !(e is NotImplementedAction))
    &&& (pre.wf() ==> post.wf())
    &&& (post.clients == pre.clients)
    &&& (post.games_id_uniq == pre.games_id_uniq)
    &&& (post.port == pre.port)
    &&& (post.uptime == pre.uptime)
    &&& (r is Err ==> post.outbox == pre.outbox)
    &&& (!pre.games.spec_has_client(client_id) ==> (r matches Err(
                OnUpdateError::SetPlayerDataError(SetPlayerDataError::PlayerNotFound(c)),
            ) && c == client_id && post.games.games() == pre.games.games()))
    &&& (forall|gi: int, pi: int|
                #[trigger] is_first_game_of_client(pre.games.games(), client_id, gi)
                    && #[trigger] is_first_client_idx(
                    pre.games.games()[gi].players,
                    client_id,
                    pi,
                ) ==> {
                    let g = pre.games.games()[gi];
                    let p = g.players[pi];
                    let d = pm.data;
                    if d.len() < 25 {
                        // a rejected blob changes nothing: the stored blob stays
                        (r matches Err(OnUpdateError::SetPlayerDataError(
                            SetPlayerDataError::SliceToBodyParse(t),
                        )) && t == spec_gmtype(g) && post.games.games() == pre.games.games())
                    } else {
                        let p2 = PlayerModel { body: Some(spec_body_from(d)), ..p };
                        let g2 = GameModel { players: g.players.update(pi, p2), ..g };
                        if p.bind is None {
                            (r matches Err(OnUpdateError::SetPlayerDataError(
                                SetPlayerDataError::PlayerNotBind(c),
                            )) && c == client_id && post.games.games() == pre.games.games().update(gi, g2))
                        } else if pm.action == Action::SET_PLAYER_DATA && d.len() + 2
                            <= 32767 {
                            &&& r is Ok
                            &&& post.games.games() == pre.games.games().update(gi, g2)
                            &&& spec_outbox_view(post.outbox@) == spec_outbox_view(
                                pre.outbox@,
                            ) + spec_sends(
                                pre.clients.deep_view(),
                                spec_targets(g2, NotifyScope::Except(client_id)),
                                spec_player_data_packet(p.bind->0, d),
                            )
                        } else if pm.action == Action::SET_PLAYER_DATA {
                            (r matches Err(OnUpdateError::ResponsePacketTypeNotExist(a)) && a
                                == pm.action && post.games.games() == pre.games.games().update(gi, g2))
                        } else {
                            post.games.games() == pre.games.games().update(gi, g2)
                        }
                    }
                })
}

impl Server {
    /// Parses the caller's statistics blob, stores it, and echoes it with
    /// the caller's slot to the session peers. A short blob leaves no blob
    /// stored; an unbound caller keeps the parsed blob but fans out nothing.
    pub fn set_player_data(&mut self, packet: &Packet, client_id: ClientID) -> (r: Result<
        OnUpdateOk,
        OnUpdateError,
    >)
        ensures
            spec_set_player_data_post(
                *old(self),
                *final(self),
                packet@,
                client_id,
                (match r {
                    Ok(_) => Ok::<(), OnUpdateError>(()),
                    Err(e) => Err(e),
                }),
            ),
            r matches Ok(ok) ==> ok is Complete,
    {
        let gi = match self.games.game_index_by_client(client_id) {
            Some(gi) => gi,
            None => {
                return Err(
                    OnUpdateError::SetPlayerDataError(SetPlayerDataError::PlayerNotFound(client_id)),
                );
            },
        };
        let pi = match self.games.0[gi].player_index(client_id) {
            Some(pi) => pi,
            None => {
                proof {
                    assert(false);
                }
                0
            },
        };

        let gmtype = self.games.0[gi].get_gmtype();

        let ghost gs1 = self.games.0;
        let ghost ps1 = self.games.0@[gi as int].players;
        let set_result = self.games.0[gi].players[pi].set_body(packet.data.as_slice());
        proof {
            lemma_deep_view_update(&ps1, &self.games.0@[gi as int].players, pi as int);
            lemma_deep_view_update(&gs1, &self.games.0, gi as int);
            let pre = old(self).games;
            let post = self.games;
            assert(post.games() =~= pre.games().update(gi as int, post.games()[gi as int]));
            assert(post.games()[gi as int] =~= (GameModel {
                players: pre.games()[gi as int].players.update(
                    pi as int,
                    post.games()[gi as int].players[pi as int],
                ),
                ..pre.games()[gi as int]
            }));
            if set_result is Err {
                assert(post.games()[gi as int].players =~= pre.games()[gi as int].players);
                assert(post.games()[gi as int] =~= pre.games()[gi as int]);
                assert(post.games() =~= pre.games());
            }
            if old(self).wf() {
                assert forall|c: ClientID|
                    #[trigger] post.games()[gi as int].spec_has_client(c) implies pre.games()[
                    gi as int
                ].spec_has_client(c) by {
                    let w = choose|w: int|
                        crate::game::is_client_idx(post.games()[gi as int].players, c, w);
                    assert(crate::game::is_client_idx(pre.games()[gi as int].players, c, w));
                };
                assert(post.games()[gi as int].wf());
                lemma_wf_update_no_new_client(&pre, &post, gi as int);
                assert(self.wf());
            }
            assert(crate::game::is_client_idx(
                self.games.games()[gi as int].players,
                client_id,
                pi as int,
            ));
            assert forall|j: int| 0 <= j < gi implies !(#[trigger] self.games.games()[
                j
            ].spec_has_client(client_id)) by {
                assert(self.games.games()[j] == old(self).games.games()[j]);
            };
            assert(is_first_game_of_client(self.games.games(), client_id, gi as int));
        }

        let bind_id = match (set_result, &self.games.0[gi].players[pi].bind) {
            (Ok(()), Some(b)) => b.id(),
            (Ok(()), None) => {
                return Err(
                    OnUpdateError::SetPlayerDataError(SetPlayerDataError::PlayerNotBind(client_id)),
                );
            },
            (Err(_), _) => {
                return Err(
                    OnUpdateError::SetPlayerDataError(SetPlayerDataError::SliceToBodyParse(gmtype)),
                );
            },
        };

        let mut adata: Vec<u8> = Vec::new();
        adata.push(bind_id);
        let mut payload = vstd::slice::slice_to_vec(packet.data.as_slice());
        adata.append(&mut payload);

        let answer = match packet.create_answer(adata) {
            Some(answer) => answer,
            None => {
                return Err(OnUpdateError::ResponsePacketTypeNotExist(packet.action));
            },
        };

        self.notify_game(client_id, &answer);

        Ok(OnUpdateOk::Complete)
    }
}

} // verus!
