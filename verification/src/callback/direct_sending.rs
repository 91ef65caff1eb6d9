//! DIRECT_SENDING: carries a message from the caller to the session slots a
//! 32-bit mask selects.

use crate::bind::spec_bind_mask;
use crate::callback::{OnUpdateError, OnUpdateOk};
use crate::client::ClientID;
use crate::game::{is_first_client_idx, GameModel};
use crate::games::is_first_game_of_client;
use crate::protocol::{Action, Packet, PacketModel};
use crate::server::{spec_outbox_view, spec_sends, Server};
use crate::utils::{get_first_cstr, slice_le_to_u32, spec_u32_of_i32};
use vstd::prelude::*;

verus! {

/// Why DIRECT_SENDING was refused.
#[derive(Debug)]
pub enum DirectSendingError {
    /// The payload is shorter than a mask and a one-byte message.
    Parse,
    /// The message is not a null-terminated string.
    String,
    /// The caller is in no session or holds no slot.
    TxPlayerNotFound(ClientID),
}

/// Whether the mask selects a player as a recipient: the player holds a slot
/// whose mask bit is set and does not belong to the sender.
pub open spec fn spec_mask_selects(p: crate::player::PlayerModel, mask: u32, sender: ClientID) -> bool {
    &&& p.client_id != sender
    &&& p.bind is Some
    &&& spec_u32_of_i32(spec_bind_mask(p.bind->0)) & mask != 0
}

/// The clients the message goes to: the session members the mask selects.
pub open spec fn spec_direct_targets(g: GameModel, mask: u32, sender: ClientID) -> Set<ClientID> {
    Set::new(
        |c: ClientID|
            exists|i: int|
                0 <= i < g.players.len() && (#[trigger] g.players[i]).client_id == c
                    && spec_mask_selects(g.players[i], mask, sender),
    )
}

/// The DIRECT_RECEIVING packet: the sender's slot then the message.
pub open spec fn spec_direct_packet(bind: u8, msg: Seq<u8>) -> PacketModel {
    PacketModel {
        event_size: (msg.len() + 2) as i16,
        action: Action::DIRECT_RECEIVING,
        real_action: 0xCE,
        data: seq![bind] + msg,
    }
}

/// Whether the mask selects some player of client `cid` in game `game`.
fn any_selected(game: &crate::game::Game, cid: ClientID, mask: u32, sender: ClientID) -> (r: bool)
    ensures
        r == exists|i: int|
            0 <= i < game@.players.len() && (#[trigger] game@.players[i]).client_id == cid
                && spec_mask_selects(game@.players[i], mask, sender),
{
    let mut i: usize = 0;
    while i < game.players.len()
        invariant
            i <= game@.players.len(),
            forall|j: int|
                0 <= j < i ==> !((#[trigger] game@.players[j]).client_id == cid
                    && spec_mask_selects(game@.players[j], mask, sender)),
        decreases game@.players.len() - i,
    {
        let p = &game.players[i];
        if p.client_id == cid && cid != sender {
            match &p.bind {
                Some(b) => {
                    let bit = crate::utils::u32_of_i32(b.mask());
                    if bit & mask != 0 {
                        assert(spec_mask_selects(game@.players[i as int], mask, sender));
                        return true;
                    }
                },
                None => {},
            }
        }
        i = i + 1;
    }
    false
}

/// Everything this handler's contract states, over the states before and
/// after the call, the packet value, the caller, and the result with its
/// success payload erased.
pub open spec fn spec_direct_sending_post(
    pre: Server,
    post: Server,
    pm: PacketModel,
    client_id: ClientID,
    r: Result<(), OnUpdateError>,
) -> bool {
    &&& (r matches Err(e) ==> !(e is NotImplementedAction))
    &&& (pre.wf() ==> post.wf())
    &&& (post.games == pre.games)
    &&& (post.clients == pre.clients)
    &&& (post.games_id_uniq == pre.games_id_uniq)
    &&& (post.port == pre.port)
    &&& (post.uptime == pre.uptime)
    &&& (r is Err ==> post.outbox == pre.outbox)
    &&& (pm.data.len() < 6 ==> r matches Err(OnUpdateError::DirectSendingError(
                DirectSendingError::Parse,
            )))
    &&& (forall|gi: int, pi: int|
                #[trigger] is_first_game_of_client(pre.games.games(), client_id, gi)
                    && #[trigger] is_first_client_idx(
                    pre.games.games()[gi].players,
                    client_id,
                    pi,
                ) && pm.data.len() >= 6 ==> {
                    let g = pre.games.games()[gi];
                    let p = g.players[pi];
                    let d = pm.data;
                    let mask = vstd::bytes::spec_u32_from_le_bytes(d.subrange(0, 4));
                    if d.skip(4).len() == 0 || d.skip(4)[0] == 0 || (forall|i: int|
                        4 <= i < d.len() ==> d[i] != 0) {
                        r matches Err(OnUpdateError::DirectSendingError(
                            DirectSendingError::String,
                        ))
                    } else if p.bind is None {
                        (r matches Err(OnUpdateError::DirectSendingError(
                            DirectSendingError::TxPlayerNotFound(c),
                        )) && c == client_id)
                    } else {
                        forall|z: int|
                            #[trigger] crate::client::is_first_zero(d.skip(4), z) && pm.action
                                == Action::DIRECT_SENDING && z + 3 <= 32767 ==> {
                                let msg = d.skip(4).take(z + 1);
                                &&& r is Ok
                                &&& spec_outbox_view(post.outbox@) == spec_outbox_view(
                                    pre.outbox@,
                                ) + spec_sends(
                                    pre.clients.deep_view(),
                                    spec_direct_targets(g, mask, client_id),
                                    spec_direct_packet(p.bind->0, msg),
                                )
                            }
                    }
                })
}

impl Server {
    /// Reads a 32-bit recipient mask and a null-terminated message and
    /// queues the message, prefixed with the caller's slot, for every
    /// session member whose slot bit the mask holds, the caller excluded.
    /// Errs, changing nothing, on a short payload, a message without a null
    /// byte, or a caller in no session or without a slot.
    pub fn direct_sending(&mut self, packet: &Packet, client_id: ClientID) -> (r: Result<
        OnUpdateOk,
        OnUpdateError,
    >)
        ensures
            spec_direct_sending_post(
                *old(self),
                *final(self),
                packet@,
                client_id,
                (match r {
                    Ok(_) => Ok::<(), OnUpdateError>(()),
                    Err(e) => Err(e),
                }),
            ),
            r matches Ok(ok) ==> ok is Complete,
    {
        if packet.data.len() < 6 {
            return Err(OnUpdateError::DirectSendingError(DirectSendingError::Parse));
        }

        let mask = slice_le_to_u32(&packet.data.as_slice()[0..4]);

        let gi = match self.games.game_index_by_client(client_id) {
            Some(gi) => gi,
            None => {
                // the message must parse even when the caller is in no
                // session: a malformed string outranks the missing sender
                let msg_src = vstd::slice::slice_subrange(
                    packet.data.as_slice(),
                    4,
                    packet.data.len(),
                );
                proof {
                    assert(msg_src@ =~= packet@.data.skip(4));
                }
                return match get_first_cstr(msg_src) {
                    Some(_) => Err(
                        OnUpdateError::DirectSendingError(
                            DirectSendingError::TxPlayerNotFound(client_id),
                        ),
                    ),
                    None => Err(OnUpdateError::DirectSendingError(DirectSendingError::String)),
                };
            },
        };
        let pi = match self.games.0[gi].player_index(client_id) {
            Some(pi) => pi,
            None => {
                proof {
                    assert(false);
                }
                0
            },
        };

        let msg_src = vstd::slice::slice_subrange(packet.data.as_slice(), 4, packet.data.len());
        proof {
            assert(msg_src@ =~= packet@.data.skip(4));
        }
        let msg = match get_first_cstr(msg_src) {
            Some(msg) => msg,
            None => {
                proof {
                    if !(packet@.data.skip(4).len() == 0 || packet@.data.skip(4)[0] == 0) {
                        assert forall|i: int|
                            4 <= i < packet@.data.len() implies packet@.data[i] != 0 by {
                            assert(packet@.data.skip(4)[i - 4] == packet@.data[i]);
                        };
                    }
                }
                return Err(OnUpdateError::DirectSendingError(DirectSendingError::String));
            },
        };
        proof {
            assert forall|j: int| 0 <= j < msg@.len() - 1 implies msg_src@[j] != 0 by {
                assert(msg@[j] == msg_src@.subrange(0, msg@.len() as int)[j]);
            };
            assert(msg@[msg@.len() - 1] == msg_src@.subrange(0, msg@.len() as int)[msg@.len()
                - 1]);
            assert(crate::client::is_first_zero(msg_src@, msg@.len() - 1));
            assert(msg@ =~= msg_src@.take(msg@.len() as int));
        }
        let player_id = match &self.games.0[gi].players[pi].bind {
            Some(b) => b.id(),
            None => {
                return Err(
                    OnUpdateError::DirectSendingError(
                        DirectSendingError::TxPlayerNotFound(client_id),
                    ),
                );
            },
        };

        let mut adata: Vec<u8> = Vec::new();
        adata.push(player_id);
        let mut msg_copy = vstd::slice::slice_to_vec(msg);
        adata.append(&mut msg_copy);
        proof {
            assert(adata@ =~= seq![player_id] + msg@);
            assert(adata@.len() <= packet@.data.len() - 3);
        }
        let answer = match packet.create_answer(adata) {
            Some(answer) => answer,
            None => {
                return Err(OnUpdateError::ResponsePacketTypeNotExist(packet.action));
            },
        };

        let ghost g = self.games.games()[gi as int];
        let ghost targets = spec_direct_targets(g, mask, client_id);
        let ghost ob_base = self.outbox@;
        let mut k: usize = 0;
        while k < self.clients.len()
            invariant
                k <= self.clients@.len(),
                gi < self.games.games().len(),
                g == self.games.games()[gi as int],
                targets == spec_direct_targets(g, mask, client_id),
                packet@.action == Action::DIRECT_SENDING ==> answer@ == spec_direct_packet(
                    old(self).games.games()[gi as int].players[pi as int].bind->0,
                    packet@.data.skip(4).take(msg@.len() as int),
                ),
                spec_outbox_view(self.outbox@) == spec_outbox_view(ob_base) + spec_sends(
                    self.clients.deep_view().take(k as int),
                    targets,
                    answer@,
                ),
                self.games == old(self).games,
                self.clients == old(self).clients,
                self.games_id_uniq == old(self).games_id_uniq,
                self.port == old(self).port,
                self.uptime == old(self).uptime,
            decreases self.clients@.len() - k,
        {
            let cid = self.clients[k].id;
            let is_recipient = any_selected(&self.games.0[gi], cid, mask, client_id);
            proof {
                assert(is_recipient == targets.contains(cid));
            }
            let ghost pre_out = self.outbox@;
            if is_recipient {
                self.outbox.push((cid, answer.clone()));
            }
            proof {
                assert(self.clients.deep_view().take(k + 1).drop_last() =~= self.clients.deep_view()
                    .take(k as int));
                assert(self.clients.deep_view().take(k + 1).last() == self.clients.deep_view()[
                    k as int
                ]);
                if is_recipient {
                    assert(spec_outbox_view(self.outbox@) =~= spec_outbox_view(pre_out) + seq![
                        (cid, answer@),
                    ]);
                    assert(spec_sends(self.clients.deep_view().take(k + 1), targets, answer@)
                        =~= spec_sends(self.clients.deep_view().take(k as int), targets, answer@)
                        + seq![(cid, answer@)]);
                } else {
                    assert(spec_sends(self.clients.deep_view().take(k + 1), targets, answer@)
                        =~= spec_sends(self.clients.deep_view().take(k as int), targets, answer@));
                }
                assert(spec_outbox_view(self.outbox@) =~= spec_outbox_view(ob_base) + spec_sends(
                    self.clients.deep_view().take(k + 1),
                    targets,
                    answer@,
                ));
            }
            k = k + 1;
        }
        proof {
            assert(self.clients.deep_view().take(self.clients.deep_view().len() as int)
                =~= self.clients.deep_view());
        }

        Ok(OnUpdateOk::Complete)
    }
}

} // verus!
