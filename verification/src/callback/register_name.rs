//! REGISTER_NAME: stores the caller's name and password and announces the
//! name to the session.

use crate::auth::{spec_pwd_hash, AuthModel};
use crate::callback::{OnUpdateError, OnUpdateOk};
use crate::client::{is_first_zero, ClientID};
use crate::game::{is_first_client_idx, GameModel};
use crate::games::{is_first_game_of_client, lemma_wf_update_no_new_client};
use crate::player::PlayerModel;
use crate::protocol::{Action, Packet, PacketModel};
use crate::server::{spec_sends, spec_outbox_view, spec_targets, NotifyScope, Server};
use crate::utils::{cstr_until_nul, lemma_deep_view_update};
use vstd::prelude::*;

verus! {

/// Why REGISTER_NAME was refused.
#[derive(Debug)]
pub enum RegisterNameError {
    /// The caller is in no session.
    PlayerNotFound(ClientID),
    /// The name or the password is not a null-terminated string, or the
    /// name is empty.
    NameOrPasswordParse,
    /// The caller holds no slot.
    PlayerNotBind(ClientID),
}

/// The name stored and announced for a submitted null-terminated name:
/// a name longer than sixteen bytes is cut to fifteen plus the null byte.
pub open spec fn spec_name_used(login: Seq<u8>) -> Seq<u8> {
    if login.len() > 16 {
        login.take(15) + seq![0u8]
    } else {
        login
    }
}

/// The PLAYERS_NAME announcement: the slot byte then the stored name.
pub open spec fn spec_name_packet(bind: u8, name: Seq<u8>) -> PacketModel {
    PacketModel {
        event_size: (name.len() + 2) as i16,
        action: Action::PLAYERS_NAME,
        real_action: 0xD5,
        data: seq![bind] + name,
    }
}

/// Everything this handler's contract states, over the states before and
/// after the call, the packet value, the caller, and the result with its
/// success payload erased.
pub open spec fn spec_register_name_post(
    pre: Server,
    post: Server,
    pm: PacketModel,
    client_id: ClientID,
    r: Result<(), OnUpdateError>,
) -> bool {
    &&& (r matches Err(e) ==> !(e is NotImplementedAction))
    &&& (pre.wf() ==> post.wf())
    &&& (post.clients == pre.clients)
    &&& (post.games_id_uniq == pre.games_id_uniq)
    &&& (post.port == pre.port)
    &&& (post.uptime == pre.uptime)
    &&& (r is Err ==> (post.games.games() == pre.games.games() && post.outbox == pre.outbox))
    &&& (!pre.games.spec_has_client(client_id) ==> (r matches Err(
                OnUpdateError::RegisterNameError(RegisterNameError::PlayerNotFound(c)),
            ) && c == client_id))
    &&& (forall|gi: int, pi: int|
                #[trigger] is_first_game_of_client(pre.games.games(), client_id, gi)
                    && #[trigger] is_first_client_idx(
                    pre.games.games()[gi].players,
                    client_id,
                    pi,
                ) ==> {
                    let g = pre.games.games()[gi];
                    let p = g.players[pi];
                    let d = pm.data;
                    if p.bind is None {
                        (r matches Err(OnUpdateError::RegisterNameError(
                            RegisterNameError::PlayerNotBind(c),
                        )) && c == client_id)
                    } else if forall|i: int| 0 <= i < d.len() ==> d[i] != 0 {
                        r matches Err(OnUpdateError::RegisterNameError(
                            RegisterNameError::NameOrPasswordParse,
                        ))
                    } else {
                        forall|z: int|
                            #[trigger] is_first_zero(d, z) ==> {
                                let login = d.take(z + 1);
                                let tail = d.skip(z + 1);
                                if z == 0 {
                                    r matches Err(OnUpdateError::RegisterNameError(
                                        RegisterNameError::NameOrPasswordParse,
                                    ))
                                } else if forall|i: int| 0 <= i < tail.len() ==> tail[i] != 0 {
                                    r matches Err(OnUpdateError::RegisterNameError(
                                        RegisterNameError::NameOrPasswordParse,
                                    ))
                                } else {
                                    forall|z2: int|
                                        #[trigger] is_first_zero(tail, z2)
                                            && pm.action == Action::REGISTER_NAME ==> {
                                            let name = spec_name_used(login);
                                            let pwd = tail.take(z2 + 1);
                                            let p2 = PlayerModel {
                                                auth: Some(
                                                    AuthModel {
                                                        name,
                                                        pwd: Some(spec_pwd_hash(pwd)),
                                                    },
                                                ),
                                                ..p
                                            };
                                            let g2 = GameModel {
                                                players: g.players.update(pi, p2),
                                                ..g
                                            };
                                            &&& r is Ok
                                            &&& post.games.games() == pre.games.games().update(gi, g2)
                                            &&& spec_outbox_view(post.outbox@)
                                                == spec_outbox_view(pre.outbox@)
                                                + spec_sends(
                                                pre.clients.deep_view(),
                                                spec_targets(g2, NotifyScope::Except(client_id)),
                                                spec_name_packet(p.bind->0, name),
                                            )
                                        }
                                }
                            }
                    }
                })
}

impl Server {
    /// Parses a null-terminated name and password, stores them for the
    /// caller's player (the name cut to fifteen bytes plus the null byte
    /// when longer than sixteen), and announces the name to the session
    /// peers. Errs, changing nothing, when the caller is in no session or
    /// unbound or either string is missing.
    pub fn register_name(&mut self, packet: &Packet, client_id: ClientID) -> (r: Result<
        OnUpdateOk,
        OnUpdateError,
    >)
        ensures
            spec_register_name_post(
                *old(self),
                *final(self),
                packet@,
                client_id,
                (match r {
                    Ok(_) => Ok::<(), OnUpdateError>(()),
                    Err(e) => Err(e),
                }),
            ),
            r matches Ok(ok) ==> ok is Complete,
    {
        let gi = match self.games.game_index_by_client(client_id) {
            Some(gi) => gi,
            None => {
                return Err(
                    OnUpdateError::RegisterNameError(RegisterNameError::PlayerNotFound(client_id)),
                );
            },
        };
        let pi = match self.games.0[gi].player_index(client_id) {
            Some(pi) => pi,
            None => {
                proof {
                    assert(false);
                }
                0
            },
        };

        let bind_id = match &self.games.0[gi].players[pi].bind {
            Some(b) => b.id(),
            None => {
                return Err(
                    OnUpdateError::RegisterNameError(RegisterNameError::PlayerNotBind(client_id)),
                );
            },
        };

        let login = match cstr_until_nul(packet.data.as_slice()) {
            Some(login) => login,
            None => {
                return Err(
                    OnUpdateError::RegisterNameError(RegisterNameError::NameOrPasswordParse),
                );
            },
        };
        let login_len = login.len();
        proof {
            assert forall|j: int| 0 <= j < login_len - 1 implies packet@.data[j] != 0 by {
                assert(login@[j] == packet@.data.subrange(0, login_len as int)[j]);
            };
            assert(login@[login_len - 1] == packet@.data.subrange(
                0,
                login_len as int,
            )[login_len - 1]);
            assert(is_first_zero(packet@.data, login_len - 1));
        }
        if login.len() < 2 {
            return Err(OnUpdateError::RegisterNameError(RegisterNameError::NameOrPasswordParse));
        }

        let name_used: Vec<u8> = if login_len > 16 {
            let mut v = vstd::slice::slice_to_vec(&login[0..15]);
            v.push(0);
            proof {
                assert(v@ =~= spec_name_used(login@));
            }
            v
        } else {
            vstd::slice::slice_to_vec(login)
        };

        let pwd_src = vstd::slice::slice_subrange(
            packet.data.as_slice(),
            login_len,
            packet.data.len(),
        );
        proof {
            assert(pwd_src@ =~= packet@.data.skip(login_len as int));
        }
        let pwd = match cstr_until_nul(pwd_src) {
            Some(pwd) => pwd,
            None => {
                return Err(
                    OnUpdateError::RegisterNameError(RegisterNameError::NameOrPasswordParse),
                );
            },
        };
        let ghost pwd_len = pwd@.len() as int;
        proof {
            assert forall|j: int| 0 <= j < pwd_len - 1 implies pwd_src@[j] != 0 by {
                assert(pwd@[j] == pwd_src@.subrange(0, pwd_len)[j]);
            };
            assert(pwd@[pwd_len - 1] == pwd_src@.subrange(0, pwd_len)[pwd_len - 1]);
            assert(is_first_zero(pwd_src@, pwd_len - 1));
            assert(pwd@ =~= pwd_src@.take(pwd_len));
        }

        assert(name_used@.len() <= 16);
        let mut adata: Vec<u8> = Vec::new();
        adata.push(bind_id);
        let mut name_copy = vstd::slice::slice_to_vec(name_used.as_slice());
        adata.append(&mut name_copy);
        proof {
            assert(adata@ =~= seq![bind_id] + name_used@);
        }
        let ghost adata_snapshot = adata@;
        let answer = match packet.create_answer(adata) {
            Some(answer) => answer,
            None => {
                proof {
                    if packet@.action == Action::REGISTER_NAME {
                        assert(Action::spec_request_to_response(packet@.action) is Some);
                        assert(adata_snapshot.len() + 1 <= 32767);
                        assert(false);
                    }
                }
                return Err(OnUpdateError::ResponsePacketTypeNotExist(packet.action));
            },
        };

        let ghost gs1 = self.games.0;
        let ghost ps1 = self.games.0@[gi as int].players;
        self.games.0[gi].players[pi].set_auth(name_used.as_slice(), pwd);
        proof {
            lemma_deep_view_update(&ps1, &self.games.0@[gi as int].players, pi as int);
            lemma_deep_view_update(&gs1, &self.games.0, gi as int);
            let pre = old(self).games;
            let post = self.games;
            assert(post.games() =~= pre.games().update(gi as int, post.games()[gi as int]));
            assert(post.games()[gi as int] =~= (GameModel {
                players: pre.games()[gi as int].players.update(
                    pi as int,
                    post.games()[gi as int].players[pi as int],
                ),
                ..pre.games()[gi as int]
            }));
            if old(self).wf() {
                assert forall|c: ClientID|
                    #[trigger] post.games()[gi as int].spec_has_client(c) implies pre.games()[
                    gi as int
                ].spec_has_client(c) by {
                    let w = choose|w: int|
                        crate::game::is_client_idx(post.games()[gi as int].players, c, w);
                    assert(crate::game::is_client_idx(pre.games()[gi as int].players, c, w));
                };
                assert(post.games()[gi as int].wf());
                lemma_wf_update_no_new_client(&pre, &post, gi as int);
                assert(self.wf());
            }
            assert(crate::game::is_client_idx(
                self.games.games()[gi as int].players,
                client_id,
                pi as int,
            ));
            assert forall|j: int| 0 <= j < gi implies !(#[trigger] self.games.games()[
                j
            ].spec_has_client(client_id)) by {
                assert(self.games.games()[j] == old(self).games.games()[j]);
            };
            assert(is_first_game_of_client(self.games.games(), client_id, gi as int));
        }

        self.notify_game(client_id, &answer);

        Ok(OnUpdateOk::Complete)
    }
}

} // verus!
