//! GET_GAME_DATA: answers with the session's name and configuration.

use crate::callback::{OnUpdateError, OnUpdateOk};
use crate::client::ClientID;
use crate::config::spec_config_le;
use crate::games::is_first_game_of_client;
use crate::protocol::{Action, Packet};
use crate::server::Server;
use vstd::prelude::*;

verus! {

/// Why GET_GAME_DATA was refused.
#[derive(Debug)]
pub enum GetGameDataError {
    /// The caller is in no session.
    PlayerNotFound(ClientID),
    /// The caller's session has no configuration yet.
    NotConfigured(u32),
}

impl Server {
    /// Answers GET_GAME_DATA with the session's raw name bytes followed by
    /// the serialized configuration; errs when the caller is in no session
    /// or the session is unconfigured. The server state is untouched.
    pub fn get_game_data(&mut self, packet: &Packet, client_id: ClientID) -> (r: Result<
        OnUpdateOk,
        OnUpdateError,
    >)
        ensures
            r matches Err(e) ==> !(e is NotImplementedAction),
            final(self).games == old(self).games,
            final(self).clients == old(self).clients,
            final(self).outbox == old(self).outbox,
            final(self).games_id_uniq == old(self).games_id_uniq,
            final(self).port == old(self).port,
            final(self).uptime == old(self).uptime,
            !old(self).games.spec_has_client(client_id) ==> (r matches Err(
                OnUpdateError::GetGameDataError(GetGameDataError::PlayerNotFound(c)),
            ) && c == client_id),
            r matches Ok(ok) ==> ok matches OnUpdateOk::Response(_),
            forall|gi: int|
                #[trigger] is_first_game_of_client(old(self).games.games(), client_id, gi) ==> {
                    let g = old(self).games.games()[gi];
                    if g.config is None {
                        (r matches Err(OnUpdateError::GetGameDataError(
                            GetGameDataError::NotConfigured(id),
                        )) && id == g.id)
                    } else if Action::spec_request_to_response(packet@.action) is Some && g.name.len() + spec_config_le(g.config->0).len() + 1 <= 32767 {
                        (r matches Ok(OnUpdateOk::Response(p)) && p@.action
                            == Action::spec_request_to_response(packet@.action)->0
                            && p@.real_action == crate::protocol::spec_action_code(p@.action)
                            && p@.event_size == p@.data.len() + 1 && p@.data
                            == g.name + spec_config_le(g.config->0))
                    } else {
                        (r matches Err(OnUpdateError::ResponsePacketTypeNotExist(a)) && a
                            == packet@.action)
                    }
                },
    {
        let gi = match self.games.game_index_by_client(client_id) {
            Some(gi) => gi,
            None => {
                return Err(
                    OnUpdateError::GetGameDataError(GetGameDataError::PlayerNotFound(client_id)),
                );
            },
        };

        let game = &self.games.0[gi];
        let config = match &game.config {
            Some(config) => config,
            None => {
                return Err(OnUpdateError::GetGameDataError(GetGameDataError::NotConfigured(game.id)));
            },
        };

        let mut data = vstd::slice::slice_to_vec(game.name.as_slice());
        let mut config_bytes = config.to_vangers_byte();
        data.append(&mut config_bytes);

        match packet.create_answer(data) {
            Some(p) => Ok(OnUpdateOk::Response(p)),
            None => Err(OnUpdateError::ResponsePacketTypeNotExist(packet.action)),
        }
    }
}

} // verus!
