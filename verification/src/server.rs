//! The server core: the client table, the session registry, and the fan-out
//! helpers that queue outbound packets. All socket work lives outside this
//! library; the core receives events and leaves packets in its outbox.

use crate::client::{ClientID, Connection};
use crate::game::GameModel;
use crate::games::{is_first_game_of_client, Games};
use crate::protocol::{Packet, PacketModel};
use crate::uptime::Uptime;
use vstd::prelude::*;

verus! {

/// What the core knows of one connected client: its id, its lifecycle stage
/// and the negotiated protocol version.
pub struct ClientInfo {
    pub id: ClientID,
    pub connection: Connection,
    pub protocol: u8,
}

/// The mathematical value of a `ClientInfo`: the id and the protocol
/// version; the lifecycle stage carries no packet payload worth modelling.
#[verifier::ext_equal]
pub ghost struct ClientInfoModel {
    pub id: ClientID,
    pub protocol: u8,
}

impl View for ClientInfo {
    type V = ClientInfoModel;

    open spec fn view(&self) -> ClientInfoModel {
        ClientInfoModel { id: self.id, protocol: self.protocol }
    }
}

impl DeepView for ClientInfo {
    type V = ClientInfoModel;

    open spec fn deep_view(&self) -> ClientInfoModel {
        self.view()
    }
}

/// Whom a fan-out addresses, always within the caller's session: the one
/// client, every session peer but the caller, or every session member.
#[derive(Clone, Copy)]
pub enum NotifyScope {
    Only(ClientID),
    Except(ClientID),
    All,
}

/// Whether a scope lets a packet reach client `cid`.
pub open spec fn spec_scope_allows(scope: NotifyScope, cid: ClientID) -> bool {
    match scope {
        NotifyScope::Only(t) => cid == t,
        NotifyScope::Except(t) => cid != t,
        NotifyScope::All => true,
    }
}

/// The clients a fan-out from `g` under `scope` addresses: the session's
/// members that the scope lets through.
pub open spec fn spec_targets(g: GameModel, scope: NotifyScope) -> Set<ClientID> {
    Set::new(|c: ClientID| g.spec_has_client(c) && spec_scope_allows(scope, c))
}

/// The outbox entries a fan-out queues: one copy of `p` for each client of
/// the table whose id the target set holds, in table order.
pub open spec fn spec_sends(
    clients: Seq<ClientInfoModel>,
    targets: Set<ClientID>,
    p: PacketModel,
) -> Seq<(ClientID, PacketModel)>
    decreases clients.len(),
{
    if clients.len() == 0 {
        Seq::empty()
    } else {
        spec_sends(clients.drop_last(), targets, p) + (if targets.contains(
            clients.last().id,
        ) {
            seq![(clients.last().id, p)]
        } else {
            Seq::empty()
        })
    }
}

/// An outbox as pairs of recipient and packet value.
pub open spec fn spec_outbox_view(ob: Seq<(ClientID, Packet)>) -> Seq<(ClientID, PacketModel)> {
    ob.map_values(|e: (ClientID, Packet)| (e.0, e.1@))
}

/// The session server: the client table, every session, the id counter for
/// new sessions, the server clock, and the outbox of packets awaiting
/// delivery.
pub struct Server {
    /// The port the surrounding program listens on.
    pub port: u16,
    /// Every session on the server.
    pub games: Games,
    /// The last session id handed out; the next session gets the successor.
    pub games_id_uniq: u32,
    /// Every connected client.
    pub clients: Vec<ClientInfo>,
    /// The moment the server started.
    pub uptime: Uptime,
    /// Outbound packets queued for delivery, in order, each with its
    /// recipient.
    pub outbox: Vec<(ClientID, Packet)>,
}

impl Server {
    /// The server's structural invariants: the session registry is well
    /// formed and no session is empty.
    pub open spec fn wf(&self) -> bool {
        &&& self.games.wf()
        &&& self.games.all_nonempty()
    }

    /// A fresh server with no clients, sessions or queued packets.
    pub fn new(port: u16) -> (r: Self)
        ensures
            r.port == port,
            r.games.games().len() == 0,
            r.games_id_uniq == 0,
            r.clients@.len() == 0,
            r.outbox@.len() == 0,
            r.wf(),
    {
        Self {
            port,
            games: Games::new(),
            games_id_uniq: 0,
            clients: Vec::new(),
            uptime: Uptime::new(),
            outbox: Vec::new(),
        }
    }

    /// The whole seconds since the server started, truncated to 32 bits.
    pub fn uptime(&self) -> u32 {
        self.uptime.as_secs_u32()
    }

    /// The next unique session id: the counter's successor, wrapping to zero
    /// after the largest 32-bit value.
    pub fn get_game_uniq_id(&mut self) -> (r: u32)
        ensures
            final(self).games_id_uniq == (if old(self).games_id_uniq == u32::MAX {
                0u32
            } else {
                (old(self).games_id_uniq + 1) as u32
            }),
            r == final(self).games_id_uniq,
            final(self).games == old(self).games,
            final(self).clients == old(self).clients,
            final(self).outbox == old(self).outbox,
            final(self).port == old(self).port,
            final(self).uptime == old(self).uptime,
    {
        if self.games_id_uniq == u32::MAX {
            self.games_id_uniq = 0;
        } else {
            self.games_id_uniq = self.games_id_uniq + 1;
        }
        self.games_id_uniq
    }

    /// Hands out the queued packets, leaving the outbox empty.
    pub fn take_outbox(&mut self) -> (r: Vec<(ClientID, Packet)>)
        ensures
            r == old(self).outbox,
            final(self).outbox@.len() == 0,
            final(self).games == old(self).games,
            final(self).clients == old(self).clients,
            final(self).games_id_uniq == old(self).games_id_uniq,
            final(self).port == old(self).port,
            final(self).uptime == old(self).uptime,
    {
        let mut taken: Vec<(ClientID, Packet)> = Vec::new();
        core::mem::swap(&mut taken, &mut self.outbox);
        taken
    }

    /// Registers a newly accepted client in the table.
    pub fn add_client(&mut self, id: ClientID)
        ensures
            final(self).clients.deep_view() == old(self).clients.deep_view().push(
                ClientInfoModel { id, protocol: 0 },
            ),
            final(self).games == old(self).games,
            final(self).outbox == old(self).outbox,
            final(self).games_id_uniq == old(self).games_id_uniq,
            final(self).port == old(self).port,
            final(self).uptime == old(self).uptime,
    {
        let ghost pre = self.clients;
        self.clients.push(ClientInfo { id, connection: Connection::Connected, protocol: 0 });
        proof {
            crate::utils::lemma_deep_view_push(&pre, &self.clients);
        }
    }

    /// Queues `packet` for every client the scope selects within the
    /// caller's session, in client-table order. A caller in no session
    /// queues nothing.
    pub fn notify(&mut self, client_id: ClientID, packet: &Packet, scope: NotifyScope)
        ensures
            !old(self).games.spec_has_client(client_id) ==> *final(self) == *old(self),
            forall|gi: int|
                #[trigger] is_first_game_of_client(old(self).games.games(), client_id, gi)
                    ==> spec_outbox_view(final(self).outbox@) == spec_outbox_view(
                    old(self).outbox@,
                ) + spec_sends(
                    old(self).clients.deep_view(),
                    spec_targets(old(self).games.games()[gi], scope),
                    packet@,
                ),
            final(self).games == old(self).games,
            final(self).clients == old(self).clients,
            final(self).games_id_uniq == old(self).games_id_uniq,
            final(self).port == old(self).port,
            final(self).uptime == old(self).uptime,
    {
        let gi = match self.games.game_index_by_client(client_id) {
            Some(gi) => gi,
            None => {
                return ;
            },
        };
        let ghost targets = spec_targets(self.games.games()[gi as int], scope);

        let mut k: usize = 0;
        while k < self.clients.len()
            invariant
                k <= self.clients@.len(),
                gi < self.games.games().len(),
                targets == spec_targets(self.games.games()[gi as int], scope),
                spec_outbox_view(self.outbox@) == spec_outbox_view(old(self).outbox@)
                    + spec_sends(self.clients.deep_view().take(k as int), targets, packet@),
                self.games == old(self).games,
                self.clients == old(self).clients,
                self.games_id_uniq == old(self).games_id_uniq,
                self.port == old(self).port,
                self.uptime == old(self).uptime,
            decreases self.clients@.len() - k,
        {
            let cid = self.clients[k].id;
            let allowed = match scope {
                NotifyScope::Only(t) => cid == t,
                NotifyScope::Except(t) => cid != t,
                NotifyScope::All => true,
            };
            let in_game = self.games.0[gi].player_index(cid).is_some();
            let ghost pre = self.outbox@;
            if allowed && in_game {
                self.outbox.push((cid, packet.clone()));
            }
            proof {
                assert(self.clients.deep_view().take(k + 1).drop_last() =~= self.clients.deep_view().take(k as int));
                assert(self.clients.deep_view().take(k + 1).last() == self.clients.deep_view()[k as int]);
                assert(targets.contains(cid) <==> (self.games.games()[gi as int].spec_has_client(
                    cid,
                ) && spec_scope_allows(scope, cid)));
                if allowed && in_game {
                    assert(targets.contains(cid));
                    assert(spec_sends(self.clients.deep_view().take(k + 1), targets, packet@) =~= spec_sends(
                        self.clients.deep_view().take(k as int),
                        targets,
                        packet@,
                    ) + seq![(cid, packet@)]);
                    assert(spec_outbox_view(self.outbox@) =~= spec_outbox_view(pre) + seq![
                        (cid, packet@),
                    ]);
                    assert(spec_outbox_view(self.outbox@) =~= spec_outbox_view(
                        old(self).outbox@,
                    ) + spec_sends(self.clients.deep_view().take(k + 1), targets, packet@));
                } else {
                    assert(!targets.contains(cid));
                    assert(spec_sends(self.clients.deep_view().take(k + 1), targets, packet@) =~= spec_sends(
                        self.clients.deep_view().take(k as int),
                        targets,
                        packet@,
                    ));
                    assert(spec_outbox_view(self.outbox@) =~= spec_outbox_view(
                        old(self).outbox@,
                    ) + spec_sends(self.clients.deep_view().take(k + 1), targets, packet@));
                }
            }
            k = k + 1;
        }
        proof {
            assert(self.clients.deep_view().take(self.clients.deep_view().len() as int)
                =~= self.clients.deep_view());
        }
    }

    /// Queues `packet` for the one client `client_id`, which must be in a
    /// session for anything to be sent.
    pub fn notify_player(&mut self, client_id: ClientID, packet: &Packet)
        ensures
            !old(self).games.spec_has_client(client_id) ==> *final(self) == *old(self),
            forall|gi: int|
                #[trigger] is_first_game_of_client(old(self).games.games(), client_id, gi)
                    ==> spec_outbox_view(final(self).outbox@) == spec_outbox_view(
                    old(self).outbox@,
                ) + spec_sends(
                    old(self).clients.deep_view(),
                    spec_targets(old(self).games.games()[gi], NotifyScope::Only(client_id)),
                    packet@,
                ),
            final(self).games == old(self).games,
            final(self).clients == old(self).clients,
            final(self).games_id_uniq == old(self).games_id_uniq,
            final(self).port == old(self).port,
            final(self).uptime == old(self).uptime,
    {
        self.notify(client_id, packet, NotifyScope::Only(client_id));
    }

    /// Queues `packet` for every session peer of the caller except the
    /// caller itself.
    pub fn notify_game(&mut self, client_id: ClientID, packet: &Packet)
        ensures
            !old(self).games.spec_has_client(client_id) ==> *final(self) == *old(self),
            forall|gi: int|
                #[trigger] is_first_game_of_client(old(self).games.games(), client_id, gi)
                    ==> spec_outbox_view(final(self).outbox@) == spec_outbox_view(
                    old(self).outbox@,
                ) + spec_sends(
                    old(self).clients.deep_view(),
                    spec_targets(old(self).games.games()[gi], NotifyScope::Except(client_id)),
                    packet@,
                ),
            final(self).games == old(self).games,
            final(self).clients == old(self).clients,
            final(self).games_id_uniq == old(self).games_id_uniq,
            final(self).port == old(self).port,
            final(self).uptime == old(self).uptime,
    {
        self.notify(client_id, packet, NotifyScope::Except(client_id));
    }

    /// Queues `packet` for every member of the caller's session, the caller
    /// included.
    pub fn notify_all(&mut self, client_id: ClientID, packet: &Packet)
        ensures
            !old(self).games.spec_has_client(client_id) ==> *final(self) == *old(self),
            forall|gi: int|
                #[trigger] is_first_game_of_client(old(self).games.games(), client_id, gi)
                    ==> spec_outbox_view(final(self).outbox@) == spec_outbox_view(
                    old(self).outbox@,
                ) + spec_sends(
                    old(self).clients.deep_view(),
                    spec_targets(old(self).games.games()[gi], NotifyScope::All),
                    packet@,
                ),
            final(self).games == old(self).games,
            final(self).clients == old(self).clients,
            final(self).games_id_uniq == old(self).games_id_uniq,
            final(self).port == old(self).port,
            final(self).uptime == old(self).uptime,
    {
        self.notify(client_id, packet, NotifyScope::All);
    }
}

} // verus!
