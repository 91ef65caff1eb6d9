//! A player within a session: slot binding, identity, statistics blob,
//! world reference, position and status.

use crate::auth::{spec_pwd_hash, Auth, AuthModel};
use crate::bind::Bind;
use crate::body::{spec_body_from, Body, BodyModel};
use crate::client::ClientID;
use crate::protocol::NetTransportReceive;
use crate::vanject::Pos;
use vstd::prelude::*;

verus! {

/// The states a player walks through: `INITIAL` until a world is entered,
/// `GAMING` while in play, `FINISHED` once gone.
#[derive(PartialEq, Eq, Structural, Clone, Copy, Debug)]
pub enum Status {
    INITIAL,
    GAMING,
    FINISHED,
}

/// The wire byte of each status.
pub open spec fn spec_status_code(s: Status) -> u8 {
    match s {
        Status::INITIAL => 0,
        Status::GAMING => 1,
        Status::FINISHED => 2,
    }
}

impl Status {
    /// The wire byte of this status.
    pub fn to_u8(&self) -> (r: u8)
        ensures
            r == spec_status_code(*self),
    {
        match self {
            Status::INITIAL => 0,
            Status::GAMING => 1,
            Status::FINISHED => 2,
        }
    }
}

/// The mathematical value of a `Player`.
#[verifier::ext_equal]
pub ghost struct PlayerModel {
    pub client_id: ClientID,
    pub bind: Option<u8>,
    pub auth: Option<AuthModel>,
    pub body: Option<BodyModel>,
    pub world: Option<u8>,
    pub pos: Pos<i16>,
    pub status: Status,
}

/// A player. The `world` field holds the id of a world within the same
/// session, never a reference into it.
#[derive(Debug)]
pub struct Player {
    /// The id that binds this `Player` to its `Client` connection.
    pub client_id: ClientID,
    /// The slot held within the session, when bound.
    pub bind: Option<Bind>,
    /// Name and password, once registered.
    pub auth: Option<Auth>,
    /// The statistics blob, once sent.
    pub body: Option<Body>,
    /// The id of the world the player is in, within the same session.
    pub world: Option<u8>,
    /// The last reported position.
    pub pos: Pos<i16>,
    /// Where the player stands in its lifecycle.
    pub status: Status,
}

impl View for Player {
    type V = PlayerModel;

    open spec fn view(&self) -> PlayerModel {
        PlayerModel {
            client_id: self.client_id,
            bind: self.bind.deep_view(),
            auth: self.auth.deep_view(),
            body: self.body.deep_view(),
            world: self.world,
            pos: self.pos,
            status: self.status,
        }
    }
}

impl DeepView for Player {
    type V = PlayerModel;

    open spec fn deep_view(&self) -> PlayerModel {
        self.view()
    }
}

impl Player {
    /// A fresh player bound to nothing.
    pub fn new(client_id: ClientID) -> (r: Self)
        ensures
            r@ == (PlayerModel {
                client_id,
                bind: None::<u8>,
                auth: None::<AuthModel>,
                body: None::<BodyModel>,
                world: None::<u8>,
                pos: Pos { x: 0i16, y: 0i16 },
                status: Status::INITIAL,
            }),
    {
        Self {
            client_id,
            bind: None,
            auth: None,
            body: None,
            world: None,
            pos: Pos::origin(),
            status: Status::INITIAL,
        }
    }

    /// Clears the slot binding, and the registered identity with it.
    pub fn bind_reset(&mut self)
        ensures
            final(self)@ == (PlayerModel {
                bind: None::<u8>,
                auth: None::<AuthModel>,
                ..old(self)@
            }),
    {
        self.set_bind(0);
    }

    /// Binds the player to slot `id`; zero clears both the binding and the
    /// registered identity.
    pub fn set_bind(&mut self, id: u8)
        requires
            id <= 31,
        ensures
            id == 0 ==> final(self)@ == (PlayerModel {
                bind: None::<u8>,
                auth: None::<AuthModel>,
                ..old(self)@
            }),
            id != 0 ==> final(self)@ == (PlayerModel { bind: Some(id), ..old(self)@ }),
    {
        if id == 0 {
            self.bind = None;
            self.auth = None;
        } else {
            self.bind = Some(Bind::new(id));
        }
    }

    /// Registers name and password. The name must be null-terminated and at
    /// least two bytes long.
    pub fn set_auth(&mut self, name: &[u8], pwd: &[u8])
        requires
            name@.len() >= 2,
            name@[name@.len() - 1] == 0,
        ensures
            final(self)@ == (PlayerModel {
                auth: Some(
                    AuthModel {
                        name: name@,
                        pwd: if pwd@.len() > 0 {
                            Some(spec_pwd_hash(pwd@))
                        } else {
                            None::<u64>
                        },
                    },
                ),
                ..old(self)@
            }),
    {
        self.auth = Some(Auth::new(name, pwd));
    }

    /// Parses and stores the statistics blob; errs when the slice is shorter
    /// than the twenty-five fixed bytes. A rejected blob changes nothing: a
    /// blob stored earlier stays.
    pub fn set_body(&mut self, slice: &[u8]) -> (r: Result<(), &'static str>)
        ensures
            r is Ok <==> slice@.len() >= 25,
            r is Ok ==> final(self)@ == (PlayerModel {
                body: Some(spec_body_from(slice@)),
                ..old(self)@
            }),
            r is Err ==> final(self)@ == old(self)@,
    {
        match Body::from_slice(slice) {
            Some(body) => {
                self.body = Some(body);
                Ok(())
            },
            None => Err("parse slice as PlayerBody failed"),
        }
    }
}

} // verus!
