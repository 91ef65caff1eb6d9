//! The action handlers: one module per request action, each mutating the
//! server state and queueing the packets it fans out; and the dispatcher
//! that routes one decoded packet to its handler.

pub mod attach_to_game;
pub mod close_socket;
pub mod create_object;
pub mod delete_object;
pub mod direct_sending;
pub mod games_list_query;
pub mod get_game_data;
pub mod leave_world;
pub mod register_name;
pub mod server_time_query;
pub mod set_game_data;
pub mod set_player_data;
pub mod set_world;
pub mod total_players_data_query;
pub mod update_object;

use crate::callback::attach_to_game::{spec_attach_to_game_post, AttachToGameError};
use crate::callback::close_socket::{spec_close_effect, CloseSocketError};
use crate::callback::create_object::{spec_create_object_post, CreateObjectError};
use crate::callback::delete_object::{spec_delete_object_post, DeleteObjectError};
use crate::callback::direct_sending::{spec_direct_sending_post, DirectSendingError};
use crate::callback::games_list_query::spec_games_list_data;
use crate::callback::get_game_data::GetGameDataError;
use crate::callback::leave_world::{spec_leave_world_effect, LeaveWorldError};
use crate::callback::register_name::{spec_register_name_post, RegisterNameError};
use crate::callback::server_time_query::spec_server_time_wire;
use crate::callback::set_game_data::{spec_set_game_data_post, SetGameDataError};
use crate::callback::set_player_data::{spec_set_player_data_post, SetPlayerDataError};
use crate::callback::set_world::{lemma_set_world_post, spec_set_world_post, SetWorldError};
use crate::callback::total_players_data_query::{
    spec_players_data, TotalPlayersDataQueryError,
};
use crate::callback::update_object::{spec_update_object_post, UpdateObjectError};
use crate::client::{ClientID, Connection, MpscData};
use crate::config::spec_config_le;
use crate::game::is_first_client_idx;
use crate::games::is_first_game_of_client;
use crate::protocol::{spec_action_code, Action, Packet, PacketModel};
use crate::server::{spec_outbox_view, ClientInfoModel, Server};
use vstd::prelude::*;

verus! {

/// Why a handler rejected a request. The dispatcher only reports these;
/// no error ever stops the event loop.
#[derive(Debug)]
pub enum OnUpdateError {
    /// The action has no handler.
    NotImplementedAction(Packet),
    /// A handler wanted to respond but the request action maps to no
    /// response action.
    ResponsePacketTypeNotExist(Action),
    AttachToGameError(AttachToGameError),
    RegisterNameError(RegisterNameError),
    SetPlayerDataError(SetPlayerDataError),
    SetGameDataError(SetGameDataError),
    GetGameDataError(GetGameDataError),
    CreateObjectError(CreateObjectError),
    UpdateObjectError(UpdateObjectError),
    DeleteObjectError(DeleteObjectError),
    DirectSendingError(DirectSendingError),
    TotalPlayersDataQueryError(TotalPlayersDataQueryError),
    SetWorldError(SetWorldError),
    LeaveWorldError(LeaveWorldError),
    CloseSocketError(CloseSocketError),
}

/// What a handler asks the dispatcher to do with its outcome: send one
/// packet back to the caller, send one packet to every client of the
/// caller's session, or nothing more (the handler queued its own fan-out).
#[derive(Debug)]
pub enum OnUpdateOk {
    Broadcast(Packet),
    Response(Packet),
    Complete,
}

/// The request actions the dispatcher owns a handler for.
pub open spec fn spec_action_handled(a: Action) -> bool {
    ||| a == Action::ATTACH_TO_GAME
    ||| a == Action::SERVER_TIME_QUERY
    ||| a == Action::GAMES_LIST_QUERY
    ||| a == Action::TOTAL_PLAYERS_DATA_QUERY
    ||| a == Action::REGISTER_NAME
    ||| a == Action::SET_PLAYER_DATA
    ||| a == Action::SET_GAME_DATA
    ||| a == Action::GET_GAME_DATA
    ||| a == Action::CREATE_OBJECT
    ||| a == Action::SET_WORLD
    ||| a == Action::LEAVE_WORLD
    ||| a == Action::UPDATE_OBJECT
    ||| a == Action::DELETE_OBJECT
    ||| a == Action::DIRECT_SENDING
    ||| a == Action::CLOSE_SOCKET
}

/// Whether the client table holds an entry for `cid`.
pub open spec fn spec_in_client_table(clients: Seq<ClientInfoModel>, cid: ClientID) -> bool {
    exists|i: int| 0 <= i < clients.len() && (#[trigger] clients[i]).id == cid
}

/// A response packet of action `a` around `data`, as `Packet::create_answer`
/// builds it.
pub open spec fn spec_response_packet(a: Action, data: Seq<u8>) -> PacketModel {
    PacketModel {
        event_size: (data.len() + 1) as i16,
        action: a,
        real_action: spec_action_code(a),
        data,
    }
}

/// The dispatcher queued exactly one response packet for the caller — or
/// nothing when the caller is not in the client table.
pub open spec fn spec_response_queued(
    pre: Server,
    post: Server,
    client_id: ClientID,
    pm2: PacketModel,
) -> bool {
    if spec_in_client_table(pre.clients.deep_view(), client_id) {
        spec_outbox_view(post.outbox@) == spec_outbox_view(pre.outbox@).push((client_id, pm2))
    } else {
        post.outbox == pre.outbox
    }
}

/// Everything one dispatch does: the matched handler's contract holds of the
/// state and the returned error, a handler's response is queued to the
/// originating client only, and an action without a handler is reported and
/// changes nothing.
pub open spec fn spec_dispatch_post(
    pre: Server,
    post: Server,
    pm: PacketModel,
    client_id: ClientID,
    r: Result<(), OnUpdateError>,
) -> bool {
    &&& post.clients == pre.clients
    &&& post.port == pre.port
    &&& post.uptime == pre.uptime
    &&& (pre.wf() ==> post.wf())
    &&& ((r matches Err(OnUpdateError::NotImplementedAction(p)) && p@.action == pm.action
        && p@.real_action == pm.real_action && p@.data == pm.data) <==> !spec_action_handled(
        pm.action,
    ))
    &&& (!spec_action_handled(pm.action) ==> post.games.games() == pre.games.games()
        && post.outbox == pre.outbox && post.games_id_uniq == pre.games_id_uniq)
    &&& (pm.action == Action::ATTACH_TO_GAME ==> spec_attach_to_game_post(
        pre,
        post,
        pm,
        client_id,
        r,
    ))
    &&& (pm.action == Action::REGISTER_NAME ==> spec_register_name_post(
        pre,
        post,
        pm,
        client_id,
        r,
    ))
    &&& (pm.action == Action::SET_PLAYER_DATA ==> spec_set_player_data_post(
        pre,
        post,
        pm,
        client_id,
        r,
    ))
    &&& (pm.action == Action::SET_GAME_DATA ==> spec_set_game_data_post(
        pre,
        post,
        pm,
        client_id,
        r,
    ))
    &&& (pm.action == Action::CREATE_OBJECT ==> spec_create_object_post(
        pre,
        post,
        pm,
        client_id,
        r,
    ))
    &&& (pm.action == Action::SET_WORLD ==> spec_set_world_post(pre, post, pm, client_id, r))
    &&& (pm.action == Action::UPDATE_OBJECT ==> spec_update_object_post(
        pre,
        post,
        pm,
        client_id,
        r,
    ))
    &&& (pm.action == Action::DELETE_OBJECT ==> spec_delete_object_post(
        pre,
        post,
        pm,
        client_id,
        r,
    ))
    &&& (pm.action == Action::DIRECT_SENDING ==> spec_direct_sending_post(
        pre,
        post,
        pm,
        client_id,
        r,
    ))
    &&& (pm.action == Action::LEAVE_WORLD ==> {
        &&& (r matches Err(e) ==> !(e is NotImplementedAction))
        &&& spec_leave_world_effect(pre, post, client_id)
        &&& post.clients == pre.clients
        &&& (!pre.games.spec_has_client(client_id) ==> (r matches Err(
            OnUpdateError::LeaveWorldError(LeaveWorldError::PlayerNotFound(c)),
        ) && c == client_id))
        &&& (r is Err ==> post.games.games() == pre.games.games() && post.outbox == pre.outbox)
        &&& forall|gi: int, pi: int|
            #[trigger] is_first_game_of_client(pre.games.games(), client_id, gi)
                && #[trigger] is_first_client_idx(
                pre.games.games()[gi].players,
                client_id,
                pi,
            ) ==> {
                let p = pre.games.games()[gi].players[pi];
                if p.bind is None {
                    (r matches Err(OnUpdateError::LeaveWorldError(
                        LeaveWorldError::PlayerNotBind(c),
                    )) && c == client_id)
                } else if p.world is None {
                    (r matches Err(OnUpdateError::LeaveWorldError(LeaveWorldError::WorldEmpty(
                        c,
                    ))) && c == client_id)
                } else {
                    r is Ok
                }
            }
    })
    &&& (pm.action == Action::CLOSE_SOCKET ==> {
        &&& (r matches Err(e) ==> !(e is NotImplementedAction))
        &&& spec_close_effect(pre, post, client_id, r is Ok)
        &&& (r is Err ==> (r matches Err(OnUpdateError::CloseSocketError(
            CloseSocketError::PlayerNotFound(c),
        )) && c == client_id))
    })
    &&& (pm.action == Action::SERVER_TIME_QUERY ==> {
        &&& (r matches Err(e) ==> !(e is NotImplementedAction))
        &&& post.games == pre.games
        &&& post.games_id_uniq == pre.games_id_uniq
        &&& (r is Ok <==> Action::spec_request_to_response(pm.action) is Some)
        &&& (r is Ok ==> exists|u: u32|
            spec_response_queued(
                pre,
                post,
                client_id,
                #[trigger] spec_response_packet(
                    Action::spec_request_to_response(pm.action)->0,
                    spec_server_time_wire(u),
                ),
            ))
        &&& (r is Err ==> post.outbox == pre.outbox && (r matches Err(
            OnUpdateError::ResponsePacketTypeNotExist(a),
        ) && a == pm.action))
    })
    &&& (pm.action == Action::GAMES_LIST_QUERY ==> {
        &&& (r matches Err(e) ==> !(e is NotImplementedAction))
        &&& post.games == pre.games
        &&& post.games_id_uniq == pre.games_id_uniq
        &&& (r is Ok ==> exists|ups: Seq<u64>|
            ups.len() == pre.games.games().len() && spec_response_queued(
                pre,
                post,
                client_id,
                #[trigger] spec_response_packet(
                    Action::spec_request_to_response(pm.action)->0,
                    spec_games_list_data(pre.games.games(), ups),
                ),
            ))
        &&& (r is Err ==> post.outbox == pre.outbox && (r matches Err(
            OnUpdateError::ResponsePacketTypeNotExist(a),
        ) && a == pm.action) && (Action::spec_request_to_response(pm.action) is None || exists|
            ups: Seq<u64>,
        |
            ups.len() == pre.games.games().len() && #[trigger] spec_games_list_data(
                pre.games.games(),
                ups,
            ).len() + 1 > 32767))
    })
    &&& (pm.action == Action::TOTAL_PLAYERS_DATA_QUERY ==> {
        &&& (r matches Err(e) ==> !(e is NotImplementedAction))
        &&& post.games == pre.games
        &&& post.games_id_uniq == pre.games_id_uniq
        &&& (!pre.games.spec_has_client(client_id) ==> (r matches Err(
            OnUpdateError::TotalPlayersDataQueryError(TotalPlayersDataQueryError::PlayerNotFound(
                c,
            )),
        ) && c == client_id && post.outbox == pre.outbox))
        &&& forall|gi: int|
            #[trigger] is_first_game_of_client(pre.games.games(), client_id, gi) ==> {
                let g = pre.games.games()[gi];
                if Action::spec_request_to_response(pm.action) is Some && spec_players_data(
                    g.players,
                ).len() + 1 <= 32767 {
                    r is Ok && spec_response_queued(
                        pre,
                        post,
                        client_id,
                        spec_response_packet(
                            Action::spec_request_to_response(pm.action)->0,
                            spec_players_data(g.players),
                        ),
                    )
                } else {
                    (r matches Err(OnUpdateError::ResponsePacketTypeNotExist(a)) && a
                        == pm.action && post.outbox == pre.outbox)
                }
            }
    })
    &&& (pm.action == Action::GET_GAME_DATA ==> {
        &&& (r matches Err(e) ==> !(e is NotImplementedAction))
        &&& post.games == pre.games
        &&& post.games_id_uniq == pre.games_id_uniq
        &&& (!pre.games.spec_has_client(client_id) ==> (r matches Err(
            OnUpdateError::GetGameDataError(GetGameDataError::PlayerNotFound(c)),
        ) && c == client_id && post.outbox == pre.outbox))
        &&& forall|gi: int|
            #[trigger] is_first_game_of_client(pre.games.games(), client_id, gi) ==> {
                let g = pre.games.games()[gi];
                if g.config is None {
                    (r matches Err(OnUpdateError::GetGameDataError(
                        GetGameDataError::NotConfigured(id),
                    )) && id == g.id && post.outbox == pre.outbox)
                } else if Action::spec_request_to_response(pm.action) is Some && g.name.len()
                    + spec_config_le(g.config->0).len() + 1 <= 32767 {
                    r is Ok && spec_response_queued(
                        pre,
                        post,
                        client_id,
                        spec_response_packet(
                            Action::spec_request_to_response(pm.action)->0,
                            g.name + spec_config_le(g.config->0),
                        ),
                    )
                } else {
                    (r matches Err(OnUpdateError::ResponsePacketTypeNotExist(a)) && a
                        == pm.action && post.outbox == pre.outbox)
                }
            }
    })
}

impl Server {
    /// Pushes a handler's response packet to the originating client, when
    /// the client table knows it; otherwise drops the packet.
    fn queue_response(&mut self, client_id: ClientID, p: Packet)
        ensures
            spec_response_queued(*old(self), *final(self), client_id, p@),
            final(self).games == old(self).games,
            final(self).clients == old(self).clients,
            final(self).games_id_uniq == old(self).games_id_uniq,
            final(self).port == old(self).port,
            final(self).uptime == old(self).uptime,
    {
        let mut k: usize = 0;
        while k < self.clients.len()
            invariant
                k <= self.clients@.len(),
                *self == *old(self),
                forall|j: int|
                    0 <= j < k ==> (#[trigger] self.clients.deep_view()[j]).id != client_id,
            decreases self.clients@.len() - k,
        {
            if self.clients[k].id == client_id {
                proof {
                    assert(self.clients.deep_view()[k as int].id == client_id);
                    assert(spec_in_client_table(old(self).clients.deep_view(), client_id));
                }
                let ghost pre_out = self.outbox@;
                self.outbox.push((client_id, p));
                proof {
                    assert(spec_outbox_view(self.outbox@) =~= spec_outbox_view(pre_out).push(
                        (client_id, self.outbox@.last().1@),
                    ));
                }
                return ;
            }
            k = k + 1;
        }
        proof {
            assert(!spec_in_client_table(old(self).clients.deep_view(), client_id));
        }
    }

    /// Dispatches one decoded packet from `client_id` to its handler, then
    /// queues the handler's response for the originating client only. The
    /// matched handler's contract holds of the final state and the returned
    /// error; an action without a handler is reported and changes nothing.
    #[verifier::rlimit(100)]
    pub fn on_update(&mut self, client_id: ClientID, packet: Packet) -> (r: Result<
        (),
        OnUpdateError,
    >)
        ensures
            spec_dispatch_post(*old(self), *final(self), packet@, client_id, r),
    {
        let ghost pm = packet@;
        let result = match packet.action {
            Action::ATTACH_TO_GAME => self.attach_to_game(&packet, client_id),
            Action::SERVER_TIME_QUERY => self.server_time_query(&packet, client_id),
            Action::GAMES_LIST_QUERY => self.games_list_query(&packet, client_id),
            Action::TOTAL_PLAYERS_DATA_QUERY => self.total_players_data_query(&packet, client_id),
            Action::REGISTER_NAME => self.register_name(&packet, client_id),
            Action::SET_PLAYER_DATA => self.set_player_data(&packet, client_id),
            Action::SET_GAME_DATA => self.set_game_data(&packet, client_id),
            Action::GET_GAME_DATA => self.get_game_data(&packet, client_id),
            Action::CREATE_OBJECT => self.create_object(&packet, client_id),
            Action::SET_WORLD => self.set_world(&packet, client_id),
            Action::LEAVE_WORLD => self.leave_world(&packet, client_id),
            Action::UPDATE_OBJECT => self.update_object(&packet, client_id),
            Action::DELETE_OBJECT => self.delete_object(&packet, client_id),
            Action::DIRECT_SENDING => self.direct_sending(&packet, client_id),
            Action::CLOSE_SOCKET => self.close_socket(&packet, client_id),
            _ => Err(OnUpdateError::NotImplementedAction(packet.clone())),
        };
        proof {
            if pm.action == Action::SET_WORLD {
                lemma_set_world_post(
                    *old(self),
                    *self,
                    pm,
                    client_id,
                    (match result {
                        Ok(_) => Ok::<(), OnUpdateError>(()),
                        Err(ref e) => Err(*e),
                    }),
                );
            }
        }

        match result {
            Ok(OnUpdateOk::Response(p)) => {
                let ghost mid = *self;
                let ghost ppm = p@;
                self.queue_response(client_id, p);
                proof {
                    assert(mid.outbox == old(self).outbox);
                    assert(mid.clients == old(self).clients);
                    assert(mid.clients.deep_view() =~= old(self).clients.deep_view());
                    assert(spec_response_queued(*old(self), *self, client_id, ppm));
                    if pm.action == Action::SERVER_TIME_QUERY {
                        let u = choose|u: u32| ppm.data == spec_server_time_wire(u);
                        assert(ppm =~= spec_response_packet(
                            Action::spec_request_to_response(pm.action)->0,
                            spec_server_time_wire(u),
                        ));
                    }
                    if pm.action == Action::GAMES_LIST_QUERY {
                        let ups = choose|ups: Seq<u64>|
                            ups.len() == old(self).games.games().len() && ppm.data
                                == spec_games_list_data(old(self).games.games(), ups);
                        assert(ppm =~= spec_response_packet(
                            Action::spec_request_to_response(pm.action)->0,
                            spec_games_list_data(old(self).games.games(), ups),
                        ));
                    }
                    if pm.action == Action::TOTAL_PLAYERS_DATA_QUERY {
                        assert forall|gi: int|
                            #[trigger] is_first_game_of_client(
                                old(self).games.games(),
                                client_id,
                                gi,
                            ) implies ppm =~= spec_response_packet(
                            Action::spec_request_to_response(pm.action)->0,
                            spec_players_data(old(self).games.games()[gi].players),
                        ) by {};
                    }
                    if pm.action == Action::GET_GAME_DATA {
                        assert forall|gi: int|
                            #[trigger] is_first_game_of_client(
                                old(self).games.games(),
                                client_id,
                                gi,
                            ) && old(self).games.games()[gi].config is Some implies ppm
                            =~= spec_response_packet(
                            Action::spec_request_to_response(pm.action)->0,
                            old(self).games.games()[gi].name + spec_config_le(
                                old(self).games.games()[gi].config->0,
                            ),
                        ) by {};
                    }
                }
                Ok(())
            },
            Ok(OnUpdateOk::Broadcast(p)) => {
                // no handler returns a broadcast today; the contracts prove
                // this arm unreachable
                proof {
                    assert(false);
                }
                self.notify_all(client_id, &p);
                Ok(())
            },
            Ok(OnUpdateOk::Complete) => Ok(()),
            Err(err) => Err(err),
        }
    }

    /// Acts on one connection event: an arrived packet is dispatched as
    /// `on_update` does, a disconnect runs the socket-close cleanup and
    /// drops the client from the table, and an authentication records the
    /// protocol version against the client's entry.
    pub fn handle_event(&mut self, data: MpscData) -> (r: Result<(), OnUpdateError>)
        ensures
            final(self).port == old(self).port,
            final(self).uptime == old(self).uptime,
            old(self).wf() ==> final(self).wf(),
            data.1 is Connected ==> *final(self) == *old(self) && r is Ok,
            data.1 matches Connection::Updated(p) ==> spec_dispatch_post(
                *old(self),
                *final(self),
                p@,
                data.0,
                r,
            ),
            data.1 matches Connection::Authenticated(proto) ==> {
                &&& r is Ok
                &&& final(self).games == old(self).games
                &&& final(self).outbox == old(self).outbox
                &&& final(self).games_id_uniq == old(self).games_id_uniq
                &&& ((forall|j: int|
                    0 <= j < old(self).clients.deep_view().len() ==> (
                    #[trigger] old(self).clients.deep_view()[j]).id != data.0) ==> final(self).clients == old(self).clients)
                &&& forall|k: int|
                    (0 <= k < old(self).clients.deep_view().len() && (
                    #[trigger] old(self).clients.deep_view()[k]).id == data.0 && (forall|j: int|
                        0 <= j < k ==> old(self).clients.deep_view()[j].id != data.0)) ==> final(self).clients.deep_view() == old(self).clients.deep_view().update(
                        k,
                        ClientInfoModel { id: data.0, protocol: proto },
                    )
            },
            data.1 is Disconnected ==> {
                &&& spec_close_effect(
                    *old(self),
                    *final(self),
                    data.0,
                    old(self).games.spec_has_client(data.0),
                )
                &&& (r is Ok <==> old(self).games.spec_has_client(data.0))
                &&& (r is Err ==> (r matches Err(OnUpdateError::CloseSocketError(
                    CloseSocketError::PlayerNotFound(c),
                )) && c == data.0))
                &&& final(self).clients.deep_view() == old(self).clients.deep_view().filter(
                    |c: ClientInfoModel| c.id != data.0,
                )
            },
    {
        let MpscData(id, connection) = data;
        match connection {
            Connection::Disconnected => {
                let close = Packet::new(Action::CLOSE_SOCKET, &[]);
                let result = self.close_socket(&close, id);
                let ghost closed = *self;
                let mut kept: Vec<crate::server::ClientInfo> = Vec::new();
                let ghost keep_pred = |c: ClientInfoModel| c.id != id;
                let mut k: usize = 0;
                while k < self.clients.len()
                    invariant
                        k <= self.clients@.len(),
                        *self == closed,
                        keep_pred == (|c: ClientInfoModel| c.id != id),
                        kept.deep_view() == self.clients.deep_view().take(k as int).filter(
                            keep_pred,
                        ),
                    decreases self.clients@.len() - k,
                {
                    let c = &self.clients[k];
                    let ghost kept_pre = kept;
                    if c.id != id {
                        kept.push(
                            crate::server::ClientInfo {
                                id: c.id,
                                connection: match &c.connection {
                                    Connection::Connected => Connection::Connected,
                                    Connection::Authenticated(p) => Connection::Authenticated(*p),
                                    Connection::Disconnected => Connection::Disconnected,
                                    Connection::Updated(p) => Connection::Updated(p.clone()),
                                },
                                protocol: c.protocol,
                            },
                        );
                    }
                    proof {
                        reveal(Seq::filter);
                        let taken = self.clients.deep_view().take(k + 1);
                        assert(taken.drop_last() =~= self.clients.deep_view().take(k as int));
                        assert(taken.last() == self.clients.deep_view()[k as int]);
                        if c.id != id {
                            crate::utils::lemma_deep_view_push(&kept_pre, &kept);
                            assert(kept@.last()@ == self.clients.deep_view()[k as int]);
                            assert(kept.deep_view() =~= taken.filter(keep_pred));
                        } else {
                            assert(kept.deep_view() =~= taken.filter(keep_pred));
                        }
                    }
                    k = k + 1;
                }
                proof {
                    assert(self.clients.deep_view().take(self.clients.deep_view().len() as int)
                        =~= self.clients.deep_view());
                }
                self.clients = kept;
                match result {
                    Ok(_) => Ok(()),
                    Err(e) => Err(e),
                }
            },
            Connection::Authenticated(protocol) => {
                let mut k: usize = 0;
                while k < self.clients.len()
                    invariant
                        k <= self.clients@.len(),
                        *self == *old(self),
                        data.0 == id,
                        data.1 == Connection::Authenticated(protocol),
                        forall|j: int|
                            0 <= j < k ==> (#[trigger] self.clients.deep_view()[j]).id != id,
                    decreases self.clients@.len() - k,
                {
                    if self.clients[k].id == id {
                        let ghost cs1 = self.clients;
                        self.clients[k].protocol = protocol;
                        proof {
                            crate::utils::lemma_deep_view_update(&cs1, &self.clients, k as int);
                        }
                        let ghost cs2 = self.clients;
                        self.clients[k].connection = Connection::Authenticated(protocol);
                        proof {
                            crate::utils::lemma_deep_view_update(&cs2, &self.clients, k as int);
                            assert(self.clients.deep_view() =~= old(self).clients.deep_view().update(
                                k as int,
                                ClientInfoModel { id, protocol },
                            ));
                            assert(old(self).clients.deep_view()[k as int].id == data.0);
                            assert forall|k2: int|
                                (0 <= k2 < old(self).clients.deep_view().len() && (
                                #[trigger] old(self).clients.deep_view()[k2]).id == data.0 && (
                                forall|j: int|
                                    0 <= j < k2 ==> old(self).clients.deep_view()[j].id
                                        != data.0)) implies self.clients.deep_view() == old(self).clients.deep_view().update(
                                k2,
                                ClientInfoModel { id: data.0, protocol },
                            ) by {
                                if k2 < k {
                                    assert(old(self).clients.deep_view()[k2].id != data.0);
                                } else if k2 > k {
                                    assert(old(self).clients.deep_view()[k as int].id != data.0);
                                }
                            };
                        }
                        return Ok(());
                    }
                    k = k + 1;
                }
                Ok(())
            },
            Connection::Connected => Ok(()),
            Connection::Updated(p) => self.on_update(id, p),
        }
    }
}

} // verus!
