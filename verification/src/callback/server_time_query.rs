//! SERVER_TIME_QUERY: answers with the server's uptime.

use crate::callback::{OnUpdateError, OnUpdateOk};
use crate::client::ClientID;
use crate::protocol::{Action, Packet};
use crate::server::Server;
use vstd::prelude::*;

verus! {

/// The four wire bytes of a server-time answer for an uptime of `u` whole
/// seconds: `u` times 256, wrapping.
pub open spec fn spec_server_time_wire(u: u32) -> Seq<u8> {
    vstd::bytes::spec_u32_to_le_bytes(((u * 256) % 0x1_0000_0000) as u32)
}

impl Server {
    /// Answers SERVER_TIME_QUERY with the server's uptime in seconds times
    /// 256 as four little-endian bytes, wrapping on overflow. The server
    /// state is untouched.
    pub fn server_time_query(&mut self, packet: &Packet, client_id: ClientID) -> (r: Result<
        OnUpdateOk,
        OnUpdateError,
    >)
        ensures
            r matches Err(e) ==> !(e is NotImplementedAction),
            final(self).games == old(self).games,
            final(self).clients == old(self).clients,
            final(self).outbox == old(self).outbox,
            final(self).games_id_uniq == old(self).games_id_uniq,
            final(self).port == old(self).port,
            final(self).uptime == old(self).uptime,
            r is Ok <==> Action::spec_request_to_response(packet@.action) is Some,
            r matches Ok(ok) ==> (ok matches OnUpdateOk::Response(p) && p@.action
                == Action::spec_request_to_response(packet@.action)->0 && p@.real_action
                == crate::protocol::spec_action_code(p@.action) && p@.event_size == p@.data.len()
                + 1 && exists|u: u32| p@.data == spec_server_time_wire(u)),
            r matches Err(e) ==> (e matches OnUpdateError::ResponsePacketTypeNotExist(a) && a
                == packet@.action),
    {
        let secs = self.uptime();
        let wide: u64 = (secs as u64) * 256;
        let wire: u32 = (wide % 0x1_0000_0000) as u32;
        let data = vstd::bytes::u32_to_le_bytes(wire);

        match packet.create_answer(data) {
            Some(p) => {
                assert(p@.data == spec_server_time_wire(secs));
                Ok(OnUpdateOk::Response(p))
            },
            None => Err(OnUpdateError::ResponsePacketTypeNotExist(packet.action)),
        }
    }
}

} // verus!
