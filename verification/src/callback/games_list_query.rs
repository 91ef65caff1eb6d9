//! GAMES_LIST_QUERY: answers with every configured session's id and display
//! line.

use crate::callback::{OnUpdateError, OnUpdateOk};
use crate::client::ClientID;
use crate::config::{spec_mode_type, Type};
use crate::game::{Game, GameModel};
use crate::protocol::{Action, Packet};
use crate::server::Server;
use crate::uptime::{format_uptime, spec_uptime_display};
use crate::utils::{spec_dec_u32, u32_to_dec_bytes};
use vstd::prelude::*;

verus! {

/// The letter a session's game type shows in the list.
pub open spec fn spec_gmtype_char(t: Type) -> u8 {
    match t {
        Type::MECHOSOMA => 77u8,
        Type::VAN_WAR => 86u8,
        Type::PASSEMBLOSS => 80u8,
        Type::MIR_RAGE => 82u8,
        _ => 63u8,
    }
}

/// The displayed title: the stored name without its null byte, the stored
/// name itself when it lacks one, and a placeholder when no name is stored.
pub open spec fn spec_title_of(name: Seq<u8>) -> Seq<u8> {
    if name.len() == 0 {
        seq![
            91u8, 85u8, 78u8, 68u8, 69u8, 70u8, 73u8, 78u8, 69u8, 68u8, 32u8, 84u8, 73u8, 84u8,
            76u8, 69u8, 93u8,
        ]
    } else if name.last() == 0 {
        name.drop_last()
    } else {
        name
    }
}

/// One list entry: the session id, a fixed server tag, the title, then the
/// player count, mode letter and uptime, null-terminated.
pub open spec fn spec_game_entry(g: GameModel, up: u64) -> Seq<u8> {
    vstd::bytes::spec_u32_to_le_bytes(g.id) + seq![
        91u8, 82u8, 117u8, 115u8, 116u8, 45u8, 83u8, 82u8, 86u8, 93u8, 32u8,
    ] + spec_title_of(g.name) + seq![58u8, 32u8] + spec_dec_u32(
        ((g.players.len() as int) % 0x1_0000_0000) as u32,
    ) + seq![32u8] + seq![
        spec_gmtype_char(
            match g.config {
                Some(c) => spec_mode_type(c.game_type),
                None => Type::UNCONFIGURED,
            },
        ),
    ] + seq![32u8] + spec_uptime_display(up) + seq![0u8]
}

/// The concatenated entries of the configured sessions, in registry order;
/// an unconfigured session contributes nothing.
pub open spec fn spec_games_list_entries(gs: Seq<GameModel>, ups: Seq<u64>) -> Seq<u8>
    decreases gs.len(),
{
    if gs.len() == 0 {
        Seq::empty()
    } else {
        spec_games_list_entries(gs.drop_last(), ups.drop_last()) + (
        if gs.last().config is Some {
            spec_game_entry(gs.last(), ups.last())
        } else {
            Seq::empty()
        })
    }
}

/// How many sessions are configured.
pub open spec fn spec_configured_count(gs: Seq<GameModel>) -> int
    decreases gs.len(),
{
    if gs.len() == 0 {
        0
    } else {
        spec_configured_count(gs.drop_last()) + (if gs.last().config is Some {
            1int
        } else {
            0int
        })
    }
}

/// The whole response payload: the configured-session count (one wrapping
/// byte) then the entries.
pub open spec fn spec_games_list_data(gs: Seq<GameModel>, ups: Seq<u64>) -> Seq<u8> {
    seq![(spec_configured_count(gs) % 256) as u8] + spec_games_list_entries(gs, ups)
}

/// The ids of the configured sessions, in registry order.
pub open spec fn spec_listed_ids(gs: Seq<GameModel>) -> Seq<u32>
    decreases gs.len(),
{
    if gs.len() == 0 {
        Seq::empty()
    } else {
        spec_listed_ids(gs.drop_last()) + (if gs.last().config is Some {
            seq![gs.last().id]
        } else {
            Seq::empty()
        })
    }
}

/// A session's id stands in the games list exactly when some session of that
/// id is configured; with unique session ids, exactly when the session
/// itself is configured.
pub proof fn lemma_games_list_iff_configured(gs: Seq<GameModel>, i: int)
    requires
        0 <= i < gs.len(),
        forall|a: int, b: int| 0 <= a < b < gs.len() ==> gs[a].id != gs[b].id,
    ensures
        spec_listed_ids(gs).contains(gs[i].id) <==> gs[i].config is Some,
    decreases gs.len(),
{
    if gs.len() > 0 {
        let prefix = gs.drop_last();
        if i == gs.len() - 1 {
            if gs[i].config is Some {
                assert(spec_listed_ids(gs).last() == gs[i].id);
                assert(spec_listed_ids(gs).contains(gs[i].id));
            } else {
                if spec_listed_ids(gs).contains(gs[i].id) {
                    lemma_listed_ids_from_source(prefix, gs[i].id);
                    let j = choose|j: int|
                        0 <= j < prefix.len() && prefix[j].id == gs[i].id && prefix[j].config
                            is Some;
                    assert(gs[j].id == gs[i].id);
                    assert(false);
                }
            }
        } else {
            lemma_games_list_iff_configured(prefix, i);
            if gs[i].config is Some {
                assert(prefix[i] == gs[i]);
                let k = choose|k: int|
                    0 <= k < spec_listed_ids(prefix).len() && spec_listed_ids(prefix)[k] == gs[
                        i
                    ].id;
                assert(spec_listed_ids(gs)[k] == gs[i].id);
                assert(spec_listed_ids(gs).contains(gs[i].id));
            } else {
                if spec_listed_ids(gs).contains(gs[i].id) {
                    lemma_listed_ids_from_source(gs, gs[i].id);
                    let j = choose|j: int|
                        0 <= j < gs.len() && gs[j].id == gs[i].id && gs[j].config is Some;
                    assert(j == i);
                    assert(false);
                }
            }
        }
    }
}

/// Every id in the games list belongs to some configured session.
proof fn lemma_listed_ids_from_source(gs: Seq<GameModel>, id: u32)
    requires
        spec_listed_ids(gs).contains(id),
    ensures
        exists|j: int| 0 <= j < gs.len() && (#[trigger] gs[j]).id == id && gs[j].config is Some,
    decreases gs.len(),
{
    if gs.len() > 0 {
        let prefix = gs.drop_last();
        if gs.last().config is Some && gs.last().id == id {
            assert(gs[gs.len() - 1].id == id && gs[gs.len() - 1].config is Some);
        } else {
            let ids = spec_listed_ids(gs);
            let k = choose|k: int| 0 <= k < ids.len() && ids[k] == id;
            assert(spec_listed_ids(prefix).contains(id));
            lemma_listed_ids_from_source(prefix, id);
            let j = choose|j: int|
                0 <= j < prefix.len() && (#[trigger] prefix[j]).id == id && prefix[j].config
                    is Some;
            assert(gs[j].id == id && gs[j].config is Some);
        }
    }
}

/// Builds the games-list payload from the sessions and one uptime reading,
/// in whole seconds, per session.
#[verifier::rlimit(60)]
pub fn games_list_data(games: &Vec<Game>, uptimes: &Vec<u64>) -> (r: Vec<u8>)
    requires
        games.deep_view().len() == uptimes@.len(),
    ensures
        r@ == spec_games_list_data(games.deep_view(), uptimes@),
{
    let ghost gs = games.deep_view();
    let mut count: u8 = 0;
    let mut entries: Vec<u8> = Vec::new();
    let mut k: usize = 0;
    while k < games.len()
        invariant
            k <= gs.len(),
            gs == games.deep_view(),
            gs.len() == uptimes@.len(),
            count == (spec_configured_count(gs.take(k as int)) % 256) as u8,
            entries@ == spec_games_list_entries(gs.take(k as int), uptimes@.take(k as int)),
        decreases gs.len() - k,
    {
        let game = &games[k];
        let ghost taken = gs.take(k + 1);
        proof {
            assert(taken.drop_last() =~= gs.take(k as int));
            assert(uptimes@.take(k + 1).drop_last() =~= uptimes@.take(k as int));
            assert(taken.last() == gs[k as int]);
            assert(uptimes@.take(k + 1).last() == uptimes@[k as int]);
        }
        if game.is_configured() {
            let mut entry = vstd::bytes::u32_to_le_bytes(game.id);
            let mut tag: Vec<u8> = vec![
                91u8, 82u8, 117u8, 115u8, 116u8, 45u8, 83u8, 82u8, 86u8, 93u8, 32u8,
            ];
            entry.append(&mut tag);
            let mut title: Vec<u8> = if game.name.len() == 0 {
                vec![
                    91u8, 85u8, 78u8, 68u8, 69u8, 70u8, 73u8, 78u8, 69u8, 68u8, 32u8, 84u8, 73u8,
                    84u8, 76u8, 69u8, 93u8,
                ]
            } else if game.name[game.name.len() - 1] == 0 {
                let t = vstd::slice::slice_subrange(
                    game.name.as_slice(),
                    0,
                    game.name.len() - 1,
                );
                proof {
                    assert(t@ =~= spec_title_of(gs[k as int].name));
                }
                vstd::slice::slice_to_vec(t)
            } else {
                vstd::slice::slice_to_vec(game.name.as_slice())
            };
            entry.append(&mut title);
            entry.push(58);
            entry.push(32);
            let shown_players: u32 = ((game.players.len() as u64) % 0x1_0000_0000) as u32;
            proof {
                assert(shown_players == ((gs[k as int].players.len() as int) % 0x1_0000_0000)
                    as u32);
            }
            let mut count_bytes = u32_to_dec_bytes(shown_players);
            entry.append(&mut count_bytes);
            entry.push(32);
            let chr: u8 = match game.get_gmtype() {
                Type::MECHOSOMA => 77,
                Type::VAN_WAR => 86,
                Type::PASSEMBLOSS => 80,
                Type::MIR_RAGE => 82,
                _ => 63,
            };
            entry.push(chr);
            entry.push(32);
            let mut up_bytes = format_uptime(uptimes[k]);
            entry.append(&mut up_bytes);
            entry.push(0);
            proof {
                assert(entry@ =~= spec_game_entry(gs[k as int], uptimes@[k as int]));
            }
            entries.append(&mut entry);
            count = if count == 255 {
                0
            } else {
                count + 1
            };
            proof {
                assert(entries@ =~= spec_games_list_entries(taken, uptimes@.take(k + 1)));
            }
        } else {
            proof {
                assert(entries@ =~= spec_games_list_entries(taken, uptimes@.take(k + 1)));
            }
        }
        k = k + 1;
    }
    proof {
        assert(gs.take(gs.len() as int) =~= gs);
        assert(uptimes@.take(uptimes@.len() as int) =~= uptimes@);
    }

    let mut out: Vec<u8> = Vec::new();
    out.push(count);
    out.append(&mut entries);
    assert(out@ =~= spec_games_list_data(gs, uptimes@));
    out
}

impl Server {
    /// Answers GAMES_LIST_QUERY: one count byte then, for every configured
    /// session, its id and display line. A session appears exactly when it
    /// is configured. The server state is untouched.
    pub fn games_list_query(&mut self, packet: &Packet, client_id: ClientID) -> (r: Result<
        OnUpdateOk,
        OnUpdateError,
    >)
        ensures
            r matches Err(e) ==> !(e is NotImplementedAction),
            final(self).games == old(self).games,
            final(self).clients == old(self).clients,
            final(self).outbox == old(self).outbox,
            final(self).games_id_uniq == old(self).games_id_uniq,
            final(self).port == old(self).port,
            final(self).uptime == old(self).uptime,
            r matches Ok(ok) ==> (ok matches OnUpdateOk::Response(p) && p@.action
                == Action::spec_request_to_response(packet@.action)->0 && p@.real_action
                == crate::protocol::spec_action_code(p@.action) && p@.event_size == p@.data.len()
                + 1 && exists|ups: Seq<u64>|
                ups.len() == old(self).games.games().len() && p@.data == spec_games_list_data(
                    old(self).games.games(),
                    ups,
                )),
            r matches Err(e) ==> (e matches OnUpdateError::ResponsePacketTypeNotExist(a) && a
                == packet@.action),
            Action::spec_request_to_response(packet@.action) is None ==> r is Err,
            r is Err ==> (Action::spec_request_to_response(packet@.action) is None || exists|
                ups: Seq<u64>,
            |
                ups.len() == old(self).games.games().len() && #[trigger] spec_games_list_data(
                    old(self).games.games(),
                    ups,
                ).len() + 1 > 32767),
    {
        let mut uptimes: Vec<u64> = Vec::new();
        let mut k: usize = 0;
        while k < self.games.0.len()
            invariant
                k <= self.games.games().len(),
                uptimes@.len() == k,
            decreases self.games.games().len() - k,
        {
            uptimes.push(self.games.0[k].birth_time.elapsed_secs());
            k = k + 1;
        }

        let data = games_list_data(&self.games.0, &uptimes);
        let ghost ups = uptimes@;

        match packet.create_answer(data) {
            Some(p) => Ok(OnUpdateOk::Response(p)),
            None => {
                proof {
                    if Action::spec_request_to_response(packet@.action) is Some {
                        assert(spec_games_list_data(old(self).games.games(), ups).len() + 1
                            > 32767);
                    }
                }
                Err(OnUpdateError::ResponsePacketTypeNotExist(packet.action))
            },
        }
    }
}

} // verus!
