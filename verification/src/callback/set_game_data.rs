//! SET_GAME_DATA: names and configures the caller's session, once.

use crate::callback::{OnUpdateError, OnUpdateOk};
use crate::client::{is_first_zero, ClientID};
use crate::config::{spec_config_from, spec_config_ok};
use crate::game::GameModel;
use crate::games::{is_first_game_of_client, lemma_wf_update_no_new_client};
use crate::protocol::{Packet, PacketModel};
use crate::server::Server;
use crate::utils::{get_first_cstr, lemma_deep_view_update};
use vstd::prelude::*;

verus! {

/// Why SET_GAME_DATA was refused.
#[derive(Debug)]
pub enum SetGameDataError {
    /// The payload does not start with a null-terminated name.
    NameParse,
    /// The parsed name is empty.
    NameEmpty,
    /// The bytes after the name do not parse as a configuration.
    SliceToGameConfigParse,
    /// The caller is in no session.
    PlayerNotFound(ClientID),
    /// The caller's session is already configured.
    AlreadyConfigured(u32),
}

/// Everything this handler's contract states, over the states before and
/// after the call, the packet value, the caller, and the result with its
/// success payload erased.
pub open spec fn spec_set_game_data_post(
    pre: Server,
    post: Server,
    pm: PacketModel,
    client_id: ClientID,
    r: Result<(), OnUpdateError>,
) -> bool {
    &&& (r matches Err(e) ==> !(e is NotImplementedAction))
    &&& (pre.wf() ==> post.wf())
    &&& (post.clients == pre.clients)
    &&& (post.outbox == pre.outbox)
    &&& (post.games_id_uniq == pre.games_id_uniq)
    &&& (post.port == pre.port)
    &&& (post.uptime == pre.uptime)
    &&& (r is Err ==> post.games.games() == pre.games.games())
    &&& (!pre.games.spec_has_client(client_id) ==> (r matches Err(
                OnUpdateError::SetGameDataError(SetGameDataError::PlayerNotFound(c)),
            ) && c == client_id))
    &&& (forall|gi: int|
                #[trigger] is_first_game_of_client(pre.games.games(), client_id, gi) ==> {
                    let g = pre.games.games()[gi];
                    let d = pm.data;
                    if g.config is Some {
                        (r matches Err(OnUpdateError::SetGameDataError(
                            SetGameDataError::AlreadyConfigured(id),
                        )) && id == g.id)
                    } else if d.len() == 0 || d[0] == 0 || (forall|i: int|
                        0 <= i < d.len() ==> d[i] != 0) {
                        r matches Err(OnUpdateError::SetGameDataError(SetGameDataError::NameParse))
                    } else {
                        forall|z: int|
                            #[trigger] is_first_zero(d, z) ==> if spec_config_ok(d.skip(z + 1)) {
                                r is Ok && post.games.games() == pre.games.games().update(
                                    gi,
                                    GameModel {
                                        name: d.take(z + 1),
                                        config: Some(spec_config_from(d.skip(z + 1))),
                                        ..g
                                    },
                                )
                            } else {
                                r matches Err(OnUpdateError::SetGameDataError(
                                    SetGameDataError::SliceToGameConfigParse,
                                ))
                            }
                    }
                })
}

impl Server {
    /// Parses a null-terminated session name and a configuration from the
    /// payload and installs both in the caller's session; errs, changing
    /// nothing, when the caller is in no session, the session is already
    /// configured, or the bytes do not parse. On success the session
    /// becomes eligible for the games list.
    pub fn set_game_data(&mut self, packet: &Packet, client_id: ClientID) -> (r: Result<
        OnUpdateOk,
        OnUpdateError,
    >)
        ensures
            spec_set_game_data_post(
                *old(self),
                *final(self),
                packet@,
                client_id,
                (match r {
                    Ok(_) => Ok::<(), OnUpdateError>(()),
                    Err(e) => Err(e),
                }),
            ),
            r matches Ok(ok) ==> ok is Complete,
    {
        let gi = match self.games.game_index_by_client(client_id) {
            Some(gi) => gi,
            None => {
                return Err(
                    OnUpdateError::SetGameDataError(SetGameDataError::PlayerNotFound(client_id)),
                );
            },
        };

        if self.games.0[gi].is_configured() {
            return Err(
                OnUpdateError::SetGameDataError(
                    SetGameDataError::AlreadyConfigured(self.games.0[gi].id),
                ),
            );
        }

        let name = match get_first_cstr(packet.data.as_slice()) {
            Some(name) => name,
            None => {
                return Err(OnUpdateError::SetGameDataError(SetGameDataError::NameParse));
            },
        };
        if name.len() == 0 {
            return Err(OnUpdateError::SetGameDataError(SetGameDataError::NameEmpty));
        }
        let name_len = name.len();
        let name_vec = vstd::slice::slice_to_vec(name);

        let rest = vstd::slice::slice_subrange(
            packet.data.as_slice(),
            name_len,
            packet.data.len(),
        );
        proof {
            assert(rest@ =~= packet@.data.skip(name_len as int));
            assert forall|j: int| 0 <= j < name_len - 1 implies packet@.data[j] != 0 by {
                assert(name@[j] == packet@.data.subrange(0, name_len as int)[j]);
            };
            assert(name@[name_len - 1] == packet@.data.subrange(0, name_len as int)[name_len - 1]);
            assert(is_first_zero(packet@.data, name_len - 1));
        }

        let ghost gs1 = self.games.0;
        let result = self.games.0[gi].set_config(rest);
        proof {
            lemma_deep_view_update(&gs1, &self.games.0, gi as int);
        }
        match result {
            Ok(()) => {
                let ghost gs2 = self.games.0;
                self.games.0[gi].name = name_vec;
                proof {
                    lemma_deep_view_update(&gs2, &self.games.0, gi as int);
                    let pre = old(self).games;
                    let post = self.games;
                    assert(post.games() =~= pre.games().update(
                        gi as int,
                        GameModel {
                            name: packet@.data.take(name_len as int),
                            config: Some(spec_config_from(packet@.data.skip(name_len as int))),
                            ..pre.games()[gi as int]
                        },
                    ));
                    if old(self).wf() {
                        assert forall|c: ClientID|
                            #[trigger] post.games()[gi as int].spec_has_client(c)
                                implies pre.games()[gi as int].spec_has_client(c) by {};
                        assert(post.games()[gi as int].wf());
                        lemma_wf_update_no_new_client(&pre, &post, gi as int);
                        assert(self.wf());
                    }
                }
                Ok(OnUpdateOk::Complete)
            },
            Err(_) => {
                proof {
                    assert(self.games.games() =~= old(self).games.games());
                }
                Err(OnUpdateError::SetGameDataError(SetGameDataError::SliceToGameConfigParse))
            },
        }
    }
}

} // verus!
