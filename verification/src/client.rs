//! The per-connection protocol pieces that need no socket: connection
//! events, the handshake check and its replies.

use crate::protocol::Packet;
use vstd::prelude::*;

verus! {

/// Identifies a client connection; drawn at random when a socket is accepted.
pub type ClientID = usize;

/// One message from a connection task to the server core: the client it
/// concerns and what happened.
pub struct MpscData(pub ClientID, pub Connection);

/// The lifecycle events of a client connection.
pub enum Connection {
    Connected,
    /// Authenticated, with the negotiated protocol version.
    Authenticated(u8),
    Disconnected,
    /// A packet arrived.
    Updated(Packet),
}

impl PartialEq for Connection {
    /// Two events are equal when they are the same lifecycle stage; the
    /// protocol version is not compared, and two `Updated` events are never
    /// equal.
    fn eq(&self, other: &Self) -> (r: bool) {
        match (self, other) {
            (Connection::Authenticated(_), Connection::Authenticated(_)) => true,
            (Connection::Connected, Connection::Connected) => true,
            (Connection::Disconnected, Connection::Disconnected) => true,
            _ => false,
        }
    }
}

impl vstd::std_specs::cmp::PartialEqSpecImpl for Connection {
    open spec fn obeys_eq_spec() -> bool {
        true
    }

    open spec fn eq_spec(&self, other: &Self) -> bool {
        match (self, other) {
            (Connection::Authenticated(_), Connection::Authenticated(_)) => true,
            (Connection::Connected, Connection::Connected) => true,
            (Connection::Disconnected, Connection::Disconnected) => true,
            _ => false,
        }
    }
}

/// Why a handshake was refused. The first two variants concern the socket
/// and are raised by the connection task; the rest concern the bytes.
#[derive(Debug, PartialEq, Eq, Structural, Clone, Copy)]
pub enum AuthError {
    /// The peer closed the connection before completing the handshake.
    ClosedByClient,
    /// The bytes before the null byte are not the expected greeting.
    HsUnexpectedRequestHeader,
    /// The byte after the null byte is not a known protocol version.
    HsUnexpectedProtocolVersion(u8),
    /// Writing the handshake reply failed.
    HsResponse,
    /// No null byte terminates the greeting.
    HsZeroTerminated,
    /// The connection faulted.
    Connection,
}

/// The greeting a client must send: the fixed handshake line.
pub open spec fn spec_hs_greeting() -> Seq<u8> {
    seq![
        86u8, 105u8, 118u8, 97u8, 116u8, 32u8, 83u8, 105u8, 99u8, 104u8, 101u8, 114u8, 44u8, 32u8,
        82u8, 111u8, 99u8, 107u8, 39u8, 110u8, 39u8, 82u8, 111u8, 108u8, 108u8, 32u8, 102u8,
        111u8, 114u8, 101u8, 118u8, 101u8, 114u8, 33u8, 33u8, 33u8,
    ]
}

/// The fixed handshake greeting, `Vivat Sicher, Rock'n'Roll forever!!!`.
pub fn hs_greeting_bytes() -> (r: Vec<u8>)
    ensures
        r@ == spec_hs_greeting(),
{
    let v: Vec<u8> = vec![
        86u8, 105u8, 118u8, 97u8, 116u8, 32u8, 83u8, 105u8, 99u8, 104u8, 101u8, 114u8, 44u8, 32u8,
        82u8, 111u8, 99u8, 107u8, 39u8, 110u8, 39u8, 82u8, 111u8, 108u8, 108u8, 32u8, 102u8,
        111u8, 114u8, 101u8, 118u8, 101u8, 114u8, 33u8, 33u8, 33u8,
    ];
    assert(v@ =~= spec_hs_greeting());
    v
}

/// The server's reply to an accepted handshake: the welcome line, a null
/// byte, then the accepted protocol version.
pub open spec fn spec_hs_reply(protocol: u8) -> Seq<u8> {
    seq![
        69u8, 110u8, 116u8, 101u8, 114u8, 44u8, 32u8, 109u8, 121u8, 32u8, 115u8, 111u8, 110u8,
        44u8, 32u8, 112u8, 108u8, 101u8, 97u8, 115u8, 101u8, 46u8, 46u8, 46u8, 0u8,
    ] + seq![protocol]
}

/// Builds the handshake acceptance reply, `Enter, my son, please...` plus a
/// null byte and the protocol version.
pub fn hs_reply_bytes(protocol: u8) -> (r: Vec<u8>)
    ensures
        r@ == spec_hs_reply(protocol),
{
    let mut v: Vec<u8> = vec![
        69u8, 110u8, 116u8, 101u8, 114u8, 44u8, 32u8, 109u8, 121u8, 32u8, 115u8, 111u8, 110u8,
        44u8, 32u8, 112u8, 108u8, 101u8, 97u8, 115u8, 101u8, 46u8, 46u8, 46u8, 0u8,
    ];
    v.push(protocol);
    assert(v@ =~= spec_hs_reply(protocol));
    v
}

/// The refusal line sent before the socket closes on a failed handshake:
/// `Auth failed, bye-bye` with a trailing null byte.
pub open spec fn spec_hs_refusal() -> Seq<u8> {
    seq![
        65u8, 117u8, 116u8, 104u8, 32u8, 102u8, 97u8, 105u8, 108u8, 101u8, 100u8, 44u8, 32u8,
        98u8, 121u8, 101u8, 45u8, 98u8, 121u8, 101u8, 0u8,
    ]
}

/// Builds the handshake refusal line.
pub fn hs_refusal_bytes() -> (r: Vec<u8>)
    ensures
        r@ == spec_hs_refusal(),
{
    let v: Vec<u8> = vec![
        65u8, 117u8, 116u8, 104u8, 32u8, 102u8, 97u8, 105u8, 108u8, 101u8, 100u8, 44u8, 32u8,
        98u8, 121u8, 101u8, 45u8, 98u8, 121u8, 101u8, 0u8,
    ];
    assert(v@ =~= spec_hs_refusal());
    v
}

/// Whether index `z` holds the first null byte of `b`.
pub open spec fn is_first_zero(b: Seq<u8>, z: int) -> bool {
    &&& 0 <= z < b.len()
    &&& b[z] == 0
    &&& forall|j: int| 0 <= j < z ==> b[j] != 0
}

/// The index of the first null byte, `None` when no byte is null.
fn find_first_zero(buff: &[u8]) -> (r: Option<usize>)
    ensures
        r is Some <==> exists|i: int| 0 <= i < buff@.len() && buff@[i] == 0,
        r is Some ==> is_first_zero(buff@, r->0 as int),
{
    let mut pos: usize = 0;
    while pos < buff.len()
        invariant
            pos <= buff@.len(),
            forall|j: int| 0 <= j < pos ==> buff@[j] != 0,
        decreases buff@.len() - pos,
    {
        if buff[pos] == 0 {
            return Some(pos);
        }
        pos = pos + 1;
    }
    None
}

/// Checks a handshake buffer: the bytes before the first null byte must be
/// the greeting, and the byte after the null byte must be protocol version 1
/// or 2. On success returns the version and the reply to send.
pub fn auth(buff: &[u8]) -> (r: Result<(u8, Vec<u8>), AuthError>)
    ensures
        (forall|i: int| 0 <= i < buff@.len() ==> buff@[i] != 0) ==> r == Err::<(u8, Vec<u8>), _>(
            AuthError::HsZeroTerminated,
        ),
        forall|z: int|
            is_first_zero(buff@, z) ==> if buff@.take(z) != spec_hs_greeting() {
                r == Err::<(u8, Vec<u8>), _>(AuthError::HsUnexpectedRequestHeader)
            } else if z + 1 >= buff@.len() {
                r == Err::<(u8, Vec<u8>), _>(AuthError::HsZeroTerminated)
            } else if buff@[z + 1] != 1 && buff@[z + 1] != 2 {
                r == Err::<(u8, Vec<u8>), _>(
                    AuthError::HsUnexpectedProtocolVersion(buff@[z + 1]),
                )
            } else {
                &&& r is Ok
                &&& r->Ok_0.0 == buff@[z + 1]
                &&& r->Ok_0.1@ == spec_hs_reply(buff@[z + 1])
            },
{
    let pos = match find_first_zero(buff) {
        Some(pos) => pos,
        None => {
            return Err(AuthError::HsZeroTerminated);
        },
    };
    assert(is_first_zero(buff@, pos as int));

    let greeting = hs_greeting_bytes();
    if pos != greeting.len() {
        assert(buff@.take(pos as int).len() != spec_hs_greeting().len());
        return Err(AuthError::HsUnexpectedRequestHeader);
    }
    let mut i: usize = 0;
    while i < greeting.len()
        invariant
            i <= greeting@.len(),
            greeting@ == spec_hs_greeting(),
            pos == greeting@.len() <= buff@.len(),
            is_first_zero(buff@, pos as int),
            forall|j: int| 0 <= j < i ==> buff@[j] == greeting@[j],
        decreases greeting@.len() - i,
    {
        if buff[i] != greeting[i] {
            assert(buff@.take(pos as int)[i as int] != spec_hs_greeting()[i as int]);
            return Err(AuthError::HsUnexpectedRequestHeader);
        }
        i = i + 1;
    }
    assert(buff@.take(pos as int) =~= spec_hs_greeting());

    if pos + 1 >= buff.len() {
        return Err(AuthError::HsZeroTerminated);
    }
    let protocol_version = buff[pos + 1];
    if protocol_version != 1 && protocol_version != 2 {
        return Err(AuthError::HsUnexpectedProtocolVersion(protocol_version));
    }

    let reply = hs_reply_bytes(protocol_version);
    Ok((protocol_version, reply))
}

} // verus!
