//! TOTAL_PLAYERS_DATA_QUERY: answers with every bound, described player of
//! the caller's session.

use crate::body::spec_body_le;
use crate::callback::{OnUpdateError, OnUpdateOk};
use crate::client::ClientID;
use crate::games::is_first_game_of_client;
use crate::player::{spec_status_code, PlayerModel};
use crate::protocol::{Action, NetTransportSend, Packet};
use crate::server::Server;
use crate::vanject::spec_pos_le;
use vstd::prelude::*;

verus! {

/// Why TOTAL_PLAYERS_DATA_QUERY was refused.
#[derive(Debug)]
pub enum TotalPlayersDataQueryError {
    /// The caller is in no session.
    PlayerNotFound(ClientID),
}

/// The name bytes an entry shows: the registered name, or a placeholder for
/// a player that never registered one.
pub open spec fn spec_entry_name(p: PlayerModel) -> Seq<u8> {
    match p.auth {
        Some(a) => a.name,
        None => seq![91u8, 85u8, 78u8, 68u8, 69u8, 70u8, 73u8, 78u8, 69u8, 68u8, 93u8, 0u8],
    }
}

/// One player's entry: slot, status, world (zero outside any world),
/// position, name and statistics blob.
pub open spec fn spec_player_entry(p: PlayerModel) -> Seq<u8> {
    seq![
        p.bind->0,
        spec_status_code(p.status),
        (match p.world {
            Some(w) => w,
            None => 0u8,
        }),
    ] + spec_pos_le(p.pos) + spec_entry_name(p) + spec_body_le(p.body->0)
}

/// The concatenated entries of the players that hold a slot and carry a
/// statistics blob, in session order.
pub open spec fn spec_players_entries(ps: Seq<PlayerModel>) -> Seq<u8>
    decreases ps.len(),
{
    if ps.len() == 0 {
        Seq::empty()
    } else {
        spec_players_entries(ps.drop_last()) + (if ps.last().bind is Some && ps.last().body
            is Some {
            spec_player_entry(ps.last())
        } else {
            Seq::empty()
        })
    }
}

/// How many players hold a slot and carry a statistics blob.
pub open spec fn spec_players_counted(ps: Seq<PlayerModel>) -> int
    decreases ps.len(),
{
    if ps.len() == 0 {
        0
    } else {
        spec_players_counted(ps.drop_last()) + (if ps.last().bind is Some && ps.last().body
            is Some {
            1int
        } else {
            0int
        })
    }
}

/// The whole response payload: the counted-player byte then the entries.
pub open spec fn spec_players_data(ps: Seq<PlayerModel>) -> Seq<u8> {
    seq![(spec_players_counted(ps) % 256) as u8] + spec_players_entries(ps)
}

impl Server {
    /// Answers TOTAL_PLAYERS_DATA_QUERY with one count byte then an entry
    /// for each player of the caller's session that holds a slot and carries
    /// a statistics blob. The server state is untouched.
    #[verifier::rlimit(60)]
    pub fn total_players_data_query(&mut self, packet: &Packet, client_id: ClientID) -> (r: Result<
        OnUpdateOk,
        OnUpdateError,
    >)
        ensures
            r matches Err(e) ==> !(e is NotImplementedAction),
            final(self).games == old(self).games,
            final(self).clients == old(self).clients,
            final(self).outbox == old(self).outbox,
            final(self).games_id_uniq == old(self).games_id_uniq,
            final(self).port == old(self).port,
            final(self).uptime == old(self).uptime,
            !old(self).games.spec_has_client(client_id) ==> (r matches Err(
                OnUpdateError::TotalPlayersDataQueryError(TotalPlayersDataQueryError::PlayerNotFound(
                    c,
                )),
            ) && c == client_id),
            r matches Ok(ok) ==> ok matches OnUpdateOk::Response(_),
            r is Err ==> final(self).outbox == old(self).outbox,
            forall|gi: int|
                #[trigger] is_first_game_of_client(old(self).games.games(), client_id, gi) ==> {
                    let g = old(self).games.games()[gi];
                    if Action::spec_request_to_response(packet@.action) is Some
                        && spec_players_data(g.players).len() + 1 <= 32767 {
                        (r matches Ok(OnUpdateOk::Response(p)) && p@.action
                            == Action::spec_request_to_response(packet@.action)->0
                            && p@.real_action == crate::protocol::spec_action_code(p@.action)
                            && p@.event_size == p@.data.len() + 1 && p@.data
                            == spec_players_data(g.players))
                    } else {
                        (r matches Err(OnUpdateError::ResponsePacketTypeNotExist(a)) && a
                            == packet@.action)
                    }
                },
    {
        let gi = match self.games.game_index_by_client(client_id) {
            Some(gi) => gi,
            None => {
                return Err(
                    OnUpdateError::TotalPlayersDataQueryError(
                        TotalPlayersDataQueryError::PlayerNotFound(client_id),
                    ),
                );
            },
        };
        let game = &self.games.0[gi];
        let ghost ps = game.players.deep_view();

        let mut count: u8 = 0;
        let mut entries: Vec<u8> = Vec::new();
        let mut k: usize = 0;
        while k < game.players.len()
            invariant
                k <= ps.len(),
                ps == game.players.deep_view(),
                count == (spec_players_counted(ps.take(k as int)) % 256) as u8,
                entries@ == spec_players_entries(ps.take(k as int)),
            decreases ps.len() - k,
        {
            let player = &game.players[k];
            let ghost taken = ps.take(k + 1);
            proof {
                assert(taken.drop_last() =~= ps.take(k as int));
                assert(taken.last() == ps[k as int]);
            }
            let id = match &player.bind {
                Some(b) => Some(b.id()),
                None => None,
            };
            let described = match (&id, &player.body) {
                (Some(_), Some(_)) => true,
                _ => false,
            };
            if described {
                let bind_id = match &id {
                    Some(b) => *b,
                    None => 0,
                };
                let mut entry: Vec<u8> = Vec::new();
                entry.push(bind_id);
                entry.push(player.status.to_u8());
                entry.push(
                    match player.world {
                        Some(w) => w,
                        None => 0,
                    },
                );
                let mut pos_bytes = player.pos.to_vangers_byte();
                entry.append(&mut pos_bytes);
                let mut name_bytes: Vec<u8> = match &player.auth {
                    Some(a) => vstd::slice::slice_to_vec(a.name()),
                    None => vec![
                        91u8, 85u8, 78u8, 68u8, 69u8, 70u8, 73u8, 78u8, 69u8, 68u8, 93u8, 0u8,
                    ],
                };
                entry.append(&mut name_bytes);
                let mut body_bytes = match &player.body {
                    Some(b) => b.to_vangers_byte(),
                    None => Vec::new(),
                };
                entry.append(&mut body_bytes);
                proof {
                    assert(entry@ =~= spec_player_entry(ps[k as int]));
                }
                entries.append(&mut entry);
                count = if count == 255 {
                    0
                } else {
                    count + 1
                };
                proof {
                    assert(entries@ =~= spec_players_entries(taken));
                }
            } else {
                proof {
                    assert(entries@ =~= spec_players_entries(taken));
                }
            }
            k = k + 1;
        }
        proof {
            assert(ps.take(ps.len() as int) =~= ps);
        }

        let mut data: Vec<u8> = Vec::new();
        data.push(count);
        data.append(&mut entries);
        proof {
            assert(data@ =~= spec_players_data(ps));
        }

        match packet.create_answer(data) {
            Some(p) => Ok(OnUpdateOk::Response(p)),
            None => Err(OnUpdateError::ResponsePacketTypeNotExist(packet.action)),
        }
    }
}

} // verus!
