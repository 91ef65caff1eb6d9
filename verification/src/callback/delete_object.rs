//! DELETE_OBJECT: removes an object from the caller's session and tells the
//! peers.

use crate::callback::{OnUpdateError, OnUpdateOk};
use crate::client::ClientID;
use crate::game::{is_first_client_idx, GameModel};
use crate::games::{is_first_game_of_client, lemma_wf_update_no_new_client};
use crate::protocol::{Action, Packet, PacketModel};
use crate::server::{spec_outbox_view, spec_sends, spec_targets, NotifyScope, Server};
use crate::utils::{slice_le_to_i32, spec_i32_from_le, spec_i32_le, i32_le};
use vstd::prelude::*;

verus! {

/// Why DELETE_OBJECT was refused.
#[derive(Debug)]
pub enum DeleteObjectError {
    /// The caller is in no session.
    PlayerNotFound(ClientID),
    /// The caller holds no slot.
    PlayerNotBind(ClientID),
    /// The payload is shorter than the object id and time it must carry.
    SliceTooSmall,
}

/// The DELETE_OBJECT fan-out: the object id, the deleting slot, then the
/// rest of the request payload as received.
pub open spec fn spec_delete_packet(vid: i32, bind: u8, d: Seq<u8>) -> PacketModel {
    PacketModel {
        event_size: (d.len() + 2) as i16,
        action: Action::DELETE_OBJECT,
        real_action: 0x04,
        data: spec_i32_le(vid) + seq![bind] + d.skip(4),
    }
}

/// Whether index `i` holds the first object of id `vid`.
pub open spec fn is_first_vanject_idx(vs: Seq<crate::vanject::VanjectModel>, vid: i32, i: int) -> bool {
    &&& 0 <= i < vs.len()
    &&& vs[i].id == vid
    &&& forall|j: int| 0 <= j < i ==> vs[j].id != vid
}

/// Everything this handler's contract states, over the states before and
/// after the call, the packet value, the caller, and the result with its
/// success payload erased.
pub open spec fn spec_delete_object_post(
    pre: Server,
    post: Server,
    pm: PacketModel,
    client_id: ClientID,
    r: Result<(), OnUpdateError>,
) -> bool {
    &&& (r matches Err(e) ==> !(e is NotImplementedAction))
    &&& (pre.wf() ==> post.wf())
    &&& (post.clients == pre.clients)
    &&& (post.games_id_uniq == pre.games_id_uniq)
    &&& (post.port == pre.port)
    &&& (post.uptime == pre.uptime)
    &&& (r is Err ==> post.games.games() == pre.games.games() && post.outbox == pre.outbox)
    &&& (pm.data.len() < 8 ==> r matches Err(OnUpdateError::DeleteObjectError(
                DeleteObjectError::SliceTooSmall,
            )))
    &&& (pm.data.len() >= 8 && !pre.games.spec_has_client(client_id) ==> (r
                matches Err(OnUpdateError::DeleteObjectError(DeleteObjectError::PlayerNotFound(c)))
                && c == client_id))
    &&& (forall|gi: int, pi: int|
                #[trigger] is_first_game_of_client(pre.games.games(), client_id, gi)
                    && #[trigger] is_first_client_idx(
                    pre.games.games()[gi].players,
                    client_id,
                    pi,
                ) && pm.data.len() >= 8 ==> {
                    let g = pre.games.games()[gi];
                    let p = g.players[pi];
                    let d = pm.data;
                    let vid = spec_i32_from_le(d.subrange(0, 4));
                    if p.bind is None {
                        (r matches Err(OnUpdateError::DeleteObjectError(
                            DeleteObjectError::PlayerNotBind(c),
                        )) && c == client_id)
                    } else {
                        &&& r is Ok
                        &&& (!g.spec_has_vanject(vid) ==> post.games.games() == pre.games.games().update(gi, g))
                        &&& forall|i: int|
                            #[trigger] is_first_vanject_idx(g.vanjects, vid, i) ==> post.games.games() == pre.games.games().update(
                                gi,
                                GameModel { vanjects: g.vanjects.remove(i), ..g },
                            )
                        &&& (d.len() + 2 <= 32767 ==> spec_outbox_view(post.outbox@)
                            == spec_outbox_view(pre.outbox@) + spec_sends(
                            pre.clients.deep_view(),
                            spec_targets(g, NotifyScope::Except(client_id)),
                            spec_delete_packet(vid, p.bind->0, d),
                        ))
                        &&& (d.len() + 2 > 32767 ==> post.outbox == pre.outbox)
                    }
                })
}

impl Server {
    /// Removes the object named in the payload from the caller's session,
    /// silently tolerating an unknown id, and fans the deletion out to the
    /// session peers stamped with the caller's slot. Errs, changing nothing,
    /// when the payload is short or the caller is in no session or unbound.
    pub fn delete_object(&mut self, packet: &Packet, client_id: ClientID) -> (r: Result<
        OnUpdateOk,
        OnUpdateError,
    >)
        ensures
            spec_delete_object_post(
                *old(self),
                *final(self),
                packet@,
                client_id,
                (match r {
                    Ok(_) => Ok::<(), OnUpdateError>(()),
                    Err(e) => Err(e),
                }),
            ),
            r matches Ok(ok) ==> ok is Complete,
    {
        if packet.data.len() < 8 {
            return Err(OnUpdateError::DeleteObjectError(DeleteObjectError::SliceTooSmall));
        }

        let vanject_id = slice_le_to_i32(&packet.data.as_slice()[0..4]);

        let gi = match self.games.game_index_by_client(client_id) {
            Some(gi) => gi,
            None => {
                return Err(
                    OnUpdateError::DeleteObjectError(DeleteObjectError::PlayerNotFound(client_id)),
                );
            },
        };
        let pi = match self.games.0[gi].player_index(client_id) {
            Some(pi) => pi,
            None => {
                proof {
                    assert(false);
                }
                0
            },
        };
        let player_auth_id = match &self.games.0[gi].players[pi].bind {
            Some(b) => b.id(),
            None => {
                return Err(
                    OnUpdateError::DeleteObjectError(DeleteObjectError::PlayerNotBind(client_id)),
                );
            },
        };

        let ghost gs1 = self.games.0;
        let _removed = self.games.0[gi].remove_vanject(vanject_id);
        proof {
            crate::utils::lemma_deep_view_update(&gs1, &self.games.0, gi as int);
            let pre = old(self).games;
            let post = self.games;
            assert(post.games() =~= pre.games().update(gi as int, post.games()[gi as int]));
            if !pre.games()[gi as int].spec_has_vanject(vanject_id) {
                assert(post.games() =~= pre.games().update(gi as int, pre.games()[gi as int]));
            }
            assert(post.games()[gi as int].players == pre.games()[gi as int].players);
            if old(self).wf() {
                assert forall|c: ClientID|
                    #[trigger] post.games()[gi as int].spec_has_client(c) implies pre.games()[
                    gi as int
                ].spec_has_client(c) by {};
                lemma_wf_update_no_new_client(&pre, &post, gi as int);
                assert(self.wf());
            }
            assert(crate::game::is_client_idx(
                self.games.games()[gi as int].players,
                client_id,
                pi as int,
            ));
            assert forall|j: int| 0 <= j < gi implies !(#[trigger] self.games.games()[
                j
            ].spec_has_client(client_id)) by {
                assert(self.games.games()[j] == old(self).games.games()[j]);
            };
            assert(is_first_game_of_client(self.games.games(), client_id, gi as int));
            assert(crate::server::spec_targets(
                self.games.games()[gi as int],
                NotifyScope::Except(client_id),
            ) =~= crate::server::spec_targets(
                old(self).games.games()[gi as int],
                NotifyScope::Except(client_id),
            ));
        }

        if packet.data.len() <= 32765 {
            let mut adata = i32_le(vanject_id);
            adata.push(player_auth_id);
            let mut tail = vstd::slice::slice_to_vec(
                vstd::slice::slice_subrange(packet.data.as_slice(), 4, packet.data.len()),
            );
            adata.append(&mut tail);
            proof {
                crate::utils::lemma_i32_le_inverse(vanject_id);
                assert(adata@ =~= spec_i32_le(vanject_id) + seq![player_auth_id]
                    + packet@.data.skip(4));
                assert(adata@.len() == packet@.data.len() + 1);
            }
            let answer = Packet::new(Action::DELETE_OBJECT, adata.as_slice());
            self.notify_game(client_id, &answer);
        }

        Ok(OnUpdateOk::Complete)
    }
}

} // verus!
