//! A session ("game"): its players, worlds, global objects, configuration
//! and slot allocator, with the invariants that bind them.

use crate::client::ClientID;
use crate::config::{spec_mode_type, Config, Type};
use crate::player::{Player, PlayerModel, Status};
use crate::uptime::Uptime;
use crate::utils::{lemma_deep_view_push, lemma_deep_view_remove, lemma_deep_view_update};
use crate::vanject::{spec_is_private, spec_station, Vanject, VanjectModel};
use crate::world::{World, WorldModel};
use vstd::prelude::*;

verus! {

/// Identifies a session; assigned by the server from a counter that starts
/// at one.
pub type GameID = u32;

/// Whether index `i` holds a player of client `cid`.
pub open spec fn is_client_idx(ps: Seq<PlayerModel>, cid: ClientID, i: int) -> bool {
    &&& 0 <= i < ps.len()
    &&& ps[i].client_id == cid
}

/// Whether index `i` holds the first player of client `cid`.
pub open spec fn is_first_client_idx(ps: Seq<PlayerModel>, cid: ClientID, i: int) -> bool {
    &&& is_client_idx(ps, cid, i)
    &&& forall|j: int| 0 <= j < i ==> ps[j].client_id != cid
}

/// Whether an object belongs to the player of slot `bind` and is private to
/// it (destroyed when the player leaves a world).
pub open spec fn spec_private_of(v: VanjectModel, bind: u8) -> bool {
    &&& spec_station(v.id) == bind as i32
    &&& spec_is_private(v.id)
}

/// The mathematical value of a `Game`. The moment of birth is a clock handle
/// and carries no value here.
#[verifier::ext_equal]
pub ghost struct GameModel {
    pub id: GameID,
    pub name: Seq<u8>,
    pub players: Seq<PlayerModel>,
    pub worlds: Seq<WorldModel>,
    pub config: Option<Config>,
    pub vanjects: Seq<VanjectModel>,
}

/// A session: players, worlds, global objects, configuration, and the time
/// it came to life.
#[derive(Debug)]
pub struct Game {
    pub id: GameID,
    /// The session name as raw bytes; null-terminated once configured.
    pub name: Vec<u8>,
    pub players: Vec<Player>,
    pub worlds: Vec<World>,
    pub birth_time: Uptime,
    pub config: Option<Config>,
    /// The session's objects, keyed by their packed id.
    pub vanjects: Vec<Vanject>,
}

impl View for Game {
    type V = GameModel;

    open spec fn view(&self) -> GameModel {
        GameModel {
            id: self.id,
            name: self.name@,
            players: self.players.deep_view(),
            worlds: self.worlds.deep_view(),
            config: self.config,
            vanjects: self.vanjects.deep_view(),
        }
    }
}

impl DeepView for Game {
    type V = GameModel;

    open spec fn deep_view(&self) -> GameModel {
        self.view()
    }
}

impl GameModel {
    /// The session's structural invariants: bound slots are unique and lie
    /// in `[1, 31]`; each client owns at most one player; world ids and
    /// object ids are unique.
    pub open spec fn wf(&self) -> bool {
        &&& forall|i: int, j: int|
            0 <= i < j < self.players.len() && #[trigger] self.players[i].bind is Some
                && #[trigger] self.players[j].bind is Some ==> self.players[i].bind->0
                != self.players[j].bind->0
        &&& forall|i: int|
            0 <= i < self.players.len() && #[trigger] self.players[i].bind is Some ==> 1
                <= self.players[i].bind->0 <= 31
        &&& forall|i: int, j: int|
            0 <= i < j < self.players.len() ==> #[trigger] self.players[i].client_id
                != #[trigger] self.players[j].client_id
        &&& forall|i: int, j: int|
            0 <= i < j < self.worlds.len() ==> #[trigger] self.worlds[i].id
                != #[trigger] self.worlds[j].id
        &&& forall|i: int, j: int|
            0 <= i < j < self.vanjects.len() ==> #[trigger] self.vanjects[i].id
                != #[trigger] self.vanjects[j].id
    }

    /// Whether some player belongs to client `cid`.
    pub open spec fn spec_has_client(&self, cid: ClientID) -> bool {
        exists|i: int| is_client_idx(self.players, cid, i)
    }

    /// Whether some player holds slot `id`.
    pub open spec fn spec_has_bind(&self, id: u8) -> bool {
        exists|i: int|
            0 <= i < self.players.len() && #[trigger] self.players[i].bind is Some
                && self.players[i].bind->0 == id
    }

    /// Whether the session holds a world of id `wid`.
    pub open spec fn spec_has_world(&self, wid: u8) -> bool {
        exists|i: int| 0 <= i < self.worlds.len() && #[trigger] self.worlds[i].id == wid
    }

    /// Whether the session holds an object of id `vid`.
    pub open spec fn spec_has_vanject(&self, vid: i32) -> bool {
        exists|i: int| 0 <= i < self.vanjects.len() && #[trigger] self.vanjects[i].id == vid
    }
}

impl Game {
    /// Whether the session is configured and so listed to clients.
    pub fn is_configured(&self) -> (r: bool)
        ensures
            r == (self@.config is Some),
    {
        self.config.is_some()
    }

    /// A fresh session with no players, worlds, objects or configuration,
    /// born now.
    pub fn new(id: u32) -> (r: Self)
        ensures
            r@ == (GameModel {
                id,
                name: Seq::<u8>::empty(),
                players: Seq::<PlayerModel>::empty(),
                worlds: Seq::<WorldModel>::empty(),
                config: None::<Config>,
                vanjects: Seq::<VanjectModel>::empty(),
            }),
            r@.wf(),
    {
        let r = Self {
            id,
            name: Vec::new(),
            players: Vec::new(),
            worlds: Vec::new(),
            birth_time: Uptime::new(),
            config: None,
            vanjects: Vec::new(),
        };
        proof {
            assert(r@.name =~= Seq::<u8>::empty());
            assert(r@.players =~= Seq::<PlayerModel>::empty());
            assert(r@.worlds =~= Seq::<WorldModel>::empty());
            assert(r@.vanjects =~= Seq::<VanjectModel>::empty());
        }
        r
    }

    /// The index of the first player of client `cid`, if any.
    pub fn player_index(&self, client_id: ClientID) -> (r: Option<usize>)
        ensures
            r is Some <==> self@.spec_has_client(client_id),
            r matches Some(i) ==> is_first_client_idx(self@.players, client_id, i as int),
    {
        let mut i: usize = 0;
        while i < self.players.len()
            invariant
                i <= self@.players.len(),
                forall|j: int| 0 <= j < i ==> self@.players[j].client_id != client_id,
            decreases self@.players.len() - i,
        {
            if self.players[i].client_id == client_id {
                assert(is_client_idx(self@.players, client_id, i as int));
                return Some(i);
            }
            i = i + 1;
        }
        None
    }

    /// The player of client `cid`, if any.
    pub fn get_player(&self, client_id: ClientID) -> (r: Option<&Player>)
        ensures
            r is Some <==> self@.spec_has_client(client_id),
            r matches Some(p) ==> p.client_id == client_id && exists|i: int|
                is_first_client_idx(self@.players, client_id, i) && p@ == self@.players[i],
    {
        match self.player_index(client_id) {
            Some(i) => Some(&self.players[i]),
            None => None,
        }
    }

    /// Whether some player holds slot `id`.
    fn has_bind(&self, id: u8) -> (r: bool)
        ensures
            r == self@.spec_has_bind(id),
    {
        let mut i: usize = 0;
        while i < self.players.len()
            invariant
                i <= self@.players.len(),
                forall|j: int|
                    0 <= j < i ==> !(#[trigger] self@.players[j].bind is Some
                        && self@.players[j].bind->0 == id),
            decreases self@.players.len() - i,
        {
            let held = match &self.players[i].bind {
                Some(b) => b.id() == id,
                None => false,
            };
            if held {
                assert(self@.players[i as int].bind == Some(id));
                return true;
            }
            i = i + 1;
        }
        false
    }

    /// The slot allocator: the numerically smallest id in `[1, 31]` that no
    /// player holds, or `None` exactly when every one of the 31 slots is
    /// held.
    pub fn get_uniq_player_id(&self) -> (r: Option<u8>)
        ensures
            r matches Some(id) ==> {
                &&& 1 <= id <= 31
                &&& !self@.spec_has_bind(id)
                &&& forall|k: u8| 1 <= k < id ==> self@.spec_has_bind(k)
            },
            r is None <==> forall|k: u8| 1 <= k <= 31 ==> self@.spec_has_bind(k),
    {
        let mut candidate: u8 = 1;
        while candidate <= 31
            invariant
                1 <= candidate <= 32,
                forall|k: u8| 1 <= k < candidate ==> self@.spec_has_bind(k),
            decreases 32 - candidate,
        {
            if !self.has_bind(candidate) {
                return Some(candidate);
            }
            candidate = candidate + 1;
        }
        None
    }

    /// Attaches a player: gives it the smallest free slot and appends it; or
    /// returns `None`, leaving the session unchanged, when all 31 slots are
    /// held. Attaching a client not yet in the session keeps the session
    /// well formed.
    pub fn attach_player(&mut self, p: Player) -> (r: Option<u8>)
        ensures
            r is None <==> (forall|k: u8| 1 <= k <= 31 ==> old(self)@.spec_has_bind(k)),
            r is None ==> final(self)@ == old(self)@,
            r matches Some(id) ==> {
                &&& 1 <= id <= 31
                &&& !old(self)@.spec_has_bind(id)
                &&& forall|k: u8| 1 <= k < id ==> old(self)@.spec_has_bind(k)
                &&& final(self)@ == (GameModel {
                    players: old(self)@.players.push(PlayerModel { bind: Some(id), ..p@ }),
                    ..old(self)@
                })
            },
            old(self)@.wf() && !old(self)@.spec_has_client(p.client_id) ==> final(self)@.wf(),
    {
        match self.get_uniq_player_id() {
            Some(uniq_id) => {
                let ghost p0 = p@;
                let mut p = p;
                p.set_bind(uniq_id);
                let ghost players_pre = self.players;
                self.players.push(p);
                proof {
                    lemma_deep_view_push(&players_pre, &self.players);
                    assert(final(self)@ =~= (GameModel {
                        players: old(self)@.players.push(PlayerModel { bind: Some(uniq_id), ..p0 }),
                        ..old(self)@
                    }));
                    let ps_old = old(self)@.players;
                    let n = ps_old.len() as int;
                    if old(self)@.wf() && !old(self)@.spec_has_client(p0.client_id) {
                        assert forall|i: int, j: int|
                            0 <= i < j < self@.players.len() && #[trigger] self@.players[i].bind
                                is Some && #[trigger] self@.players[j].bind is Some implies self@
                            .players[i].bind->0 != self@.players[j].bind->0 by {
                            if j == n && self@.players[i].bind is Some && self@.players[i].bind->0
                                == uniq_id {
                                assert(ps_old[i].bind is Some && ps_old[i].bind->0 == uniq_id);
                                assert(old(self)@.spec_has_bind(uniq_id));
                            }
                        };
                        assert forall|i: int, j: int|
                            0 <= i < j < self@.players.len() implies #[trigger] self@.players[i]
                            .client_id != #[trigger] self@.players[j].client_id by {
                            if j == n && self@.players[i].client_id == p0.client_id {
                                assert(is_client_idx(ps_old, p0.client_id, i));
                            }
                        };
                        assert(self@.wf());
                    }
                }
                Some(uniq_id)
            },
            None => None,
        }
    }

    /// Assigns the player of client `cid` to the world of id `world_id`,
    /// which must exist in this session, and moves the player to `GAMING`.
    /// Returns whether the status changed, in which case the caller fans out
    /// a status event.
    pub fn place_player(&mut self, client_id: ClientID, world_id: u8) -> (r: bool)
        requires
            old(self)@.spec_has_client(client_id),
            old(self)@.spec_has_world(world_id),
        ensures
            forall|i: int|
                #[trigger] is_first_client_idx(old(self)@.players, client_id, i) ==> {
                    &&& final(self)@ == (GameModel {
                        players: old(self)@.players.update(
                            i,
                            PlayerModel {
                                world: Some(world_id),
                                status: Status::GAMING,
                                ..old(self)@.players[i]
                            },
                        ),
                        ..old(self)@
                    })
                    &&& r == (old(self)@.players[i].status != Status::GAMING)
                },
            old(self)@.wf() ==> final(self)@.wf(),
    {
        let i = match self.player_index(client_id) {
            Some(i) => i,
            None => {
                proof {
                    assert(false);
                }
                0
            },
        };
        let changed = self.players[i].status != Status::GAMING;
        let ghost players_mid = self.players;
        self.players[i].world = Some(world_id);
        proof {
            lemma_deep_view_update(&players_mid, &self.players, i as int);
        }
        let ghost players_mid2 = self.players;
        self.players[i].status = Status::GAMING;
        proof {
            lemma_deep_view_update(&players_mid2, &self.players, i as int);
            assert(self@.players =~= old(self)@.players.update(
                i as int,
                PlayerModel {
                    world: Some(world_id),
                    status: Status::GAMING,
                    ..old(self)@.players[i as int]
                },
            ));
            assert(self@ =~= (GameModel {
                players: old(self)@.players.update(
                    i as int,
                    PlayerModel {
                        world: Some(world_id),
                        status: Status::GAMING,
                        ..old(self)@.players[i as int]
                    },
                ),
                ..old(self)@
            }));
            if old(self)@.wf() {
                assert(self@.wf());
            }
        }
        changed
    }

    /// Parses and installs the configuration; errs when the session already
    /// has one or the bytes do not parse, leaving the session as it was.
    pub fn set_config(&mut self, slice: &[u8]) -> (r: Result<(), &'static str>)
        ensures
            r is Ok <==> (old(self)@.config is None && crate::config::spec_config_ok(slice@)),
            r is Ok ==> final(self)@ == (GameModel {
                config: Some(crate::config::spec_config_from(slice@)),
                ..old(self)@
            }),
            r is Err ==> final(self)@ == old(self)@,
    {
        if self.is_configured() {
            return Err("already configured");
        }

        self.config = Config::from_slice(slice);
        match self.config {
            Some(_) => Ok(()),
            None => {
                assert(final(self)@ =~= old(self)@);
                Err("fail converting slice to config")
            },
        }
    }

    /// The configured game type, `UNCONFIGURED` while no configuration is
    /// set.
    pub fn get_gmtype(&self) -> (r: Type)
        ensures
            r == (match self@.config {
                Some(c) => spec_mode_type(c.game_type),
                None => Type::UNCONFIGURED,
            }),
    {
        match &self.config {
            Some(a) => a.get_gametype(),
            None => Type::UNCONFIGURED,
        }
    }

    /// The index of the world of id `wid`, if any.
    pub fn world_index(&self, wid: u8) -> (r: Option<usize>)
        ensures
            r is Some <==> self@.spec_has_world(wid),
            r matches Some(i) ==> i < self@.worlds.len() && self@.worlds[i as int].id == wid
                && self.worlds@[i as int].id == wid && (forall|j: int|
                0 <= j < i ==> #[trigger] self@.worlds[j].id != wid),
    {
        let mut i: usize = 0;
        while i < self.worlds.len()
            invariant
                i <= self@.worlds.len(),
                forall|j: int| 0 <= j < i ==> #[trigger] self@.worlds[j].id != wid,
            decreases self@.worlds.len() - i,
        {
            if self.worlds[i].id == wid {
                assert(self@.worlds[i as int].id == wid);
                return Some(i);
            }
            i = i + 1;
        }
        None
    }

    /// Adds a world; a fresh world id keeps the session well formed.
    pub fn add_world(&mut self, world: World)
        ensures
            final(self)@ == (GameModel { worlds: old(self)@.worlds.push(world@), ..old(self)@ }),
            old(self)@.wf() && !old(self)@.spec_has_world(world.id) ==> final(self)@.wf(),
    {
        let ghost w0 = world@;
        let ghost worlds_pre = self.worlds;
        let ghost n = self.worlds@.len() as int;
        self.worlds.push(world);
        proof {
            lemma_deep_view_push(&worlds_pre, &self.worlds);
            assert(self@ =~= (GameModel { worlds: old(self)@.worlds.push(w0), ..old(self)@ }));
            if old(self)@.wf() && !old(self)@.spec_has_world(w0.id) {
                assert forall|i: int, j: int|
                    0 <= i < j < self@.worlds.len() implies #[trigger] self@.worlds[i].id
                    != #[trigger] self@.worlds[j].id by {
                    if j == n && self@.worlds[i].id == w0.id {
                        assert(old(self)@.spec_has_world(w0.id));
                    }
                };
                assert(self@.wf());
            }
        }
    }

    /// The index of the object of id `vid`, if any.
    pub fn vanject_index(&self, vid: i32) -> (r: Option<usize>)
        ensures
            r is Some <==> self@.spec_has_vanject(vid),
            r matches Some(i) ==> i < self@.vanjects.len() && self@.vanjects[i as int].id == vid
                && self.vanjects@[i as int].id == vid && (forall|j: int|
                0 <= j < i ==> #[trigger] self@.vanjects[j].id != vid),
    {
        let mut i: usize = 0;
        while i < self.vanjects.len()
            invariant
                i <= self@.vanjects.len(),
                forall|j: int| 0 <= j < i ==> #[trigger] self@.vanjects[j].id != vid,
            decreases self@.vanjects.len() - i,
        {
            if self.vanjects[i].id == vid {
                assert(self@.vanjects[i as int].id == vid);
                return Some(i);
            }
            i = i + 1;
        }
        None
    }

    /// Stores an object; a fresh object id keeps the session well formed.
    pub fn insert_vanject(&mut self, v: Vanject)
        ensures
            final(self)@ == (GameModel { vanjects: old(self)@.vanjects.push(v@), ..old(self)@ }),
            old(self)@.wf() && !old(self)@.spec_has_vanject(v.id) ==> final(self)@.wf(),
    {
        let ghost v0 = v@;
        let ghost pre = self.vanjects;
        let ghost n = self.vanjects@.len() as int;
        self.vanjects.push(v);
        proof {
            lemma_deep_view_push(&pre, &self.vanjects);
            assert(self@ =~= (GameModel { vanjects: old(self)@.vanjects.push(v0), ..old(self)@ }));
            if old(self)@.wf() && !old(self)@.spec_has_vanject(v0.id) {
                assert forall|i: int, j: int|
                    0 <= i < j < self@.vanjects.len() implies #[trigger] self@.vanjects[i].id
                    != #[trigger] self@.vanjects[j].id by {
                    if j == n && self@.vanjects[i].id == v0.id {
                        assert(old(self)@.spec_has_vanject(v0.id));
                    }
                };
                assert(self@.wf());
            }
        }
    }

    /// Removes the object of id `vid` if the session holds one; says whether
    /// it did. Well-formedness is kept.
    pub fn remove_vanject(&mut self, vid: i32) -> (r: bool)
        ensures
            r <==> old(self)@.spec_has_vanject(vid),
            !r ==> final(self)@ == old(self)@,
            r ==> exists|i: int|
                0 <= i < old(self)@.vanjects.len() && (#[trigger] old(self)@.vanjects[i]).id
                    == vid && (forall|j: int| 0 <= j < i ==> old(self)@.vanjects[j].id != vid)
                    && final(self)@ == (GameModel {
                    vanjects: old(self)@.vanjects.remove(i),
                    ..old(self)@
                }),
            forall|i: int|
                (0 <= i < old(self)@.vanjects.len() && old(self)@.vanjects[i].id == vid && (
                forall|j: int| 0 <= j < i ==> old(self)@.vanjects[j].id != vid)) ==> final(self)@
                    == (GameModel { vanjects: old(self)@.vanjects.remove(i), ..old(self)@ }),
            old(self)@.wf() ==> final(self)@.wf(),
    {
        match self.vanject_index(vid) {
            Some(i) => {
                let ghost pre = self.vanjects;
                self.vanjects.remove(i);
                proof {
                    lemma_deep_view_remove(&pre, &self.vanjects, i as int);
                    assert(self@ =~= (GameModel {
                        vanjects: old(self)@.vanjects.remove(i as int),
                        ..old(self)@
                    }));
                    if old(self)@.wf() {
                        assert forall|a: int, b: int|
                            0 <= a < b < self@.vanjects.len() implies #[trigger] self@.vanjects[a]
                            .id != #[trigger] self@.vanjects[b].id by {
                            let a0 = if a < i { a } else { a + 1 };
                            let b0 = if b < i { b } else { b + 1 };
                            assert(self@.vanjects[a] == old(self)@.vanjects[a0]);
                            assert(self@.vanjects[b] == old(self)@.vanjects[b0]);
                        };
                        assert(self@.wf());
                    }
                    assert(0 <= i < old(self)@.vanjects.len() && (#[trigger] old(self)@.vanjects[i as int]).id == vid && (forall|j: int|
                        0 <= j < i ==> old(self)@.vanjects[j].id != vid) && self@ == (GameModel {
                        vanjects: old(self)@.vanjects.remove(i as int),
                        ..old(self)@
                    }));
                }
                true
            },
            None => false,
        }
    }

    /// Removes the first player of client `cid`, saying whether one existed.
    /// In a well-formed session no player of that client remains afterwards.
    pub fn remove_player(&mut self, client_id: ClientID) -> (r: bool)
        ensures
            r <==> old(self)@.spec_has_client(client_id),
            !r ==> final(self)@ == old(self)@,
            forall|pi: int|
                #[trigger] is_first_client_idx(old(self)@.players, client_id, pi) ==> final(self)@
                    == (GameModel { players: old(self)@.players.remove(pi), ..old(self)@ }),
            old(self)@.wf() ==> final(self)@.wf(),
            old(self)@.wf() ==> !final(self)@.spec_has_client(client_id),
            final(self)@.players.len() >= old(self)@.players.len() - 1,
    {
        match self.player_index(client_id) {
            Some(pi) => {
                let ghost pre = self.players;
                self.players.remove(pi);
                proof {
                    crate::utils::lemma_deep_view_remove(&pre, &self.players, pi as int);
                    assert(self@ =~= (GameModel {
                        players: old(self)@.players.remove(pi as int),
                        ..old(self)@
                    }));
                    if old(self)@.wf() {
                        assert forall|a: int, b: int|
                            0 <= a < b < self@.players.len() && #[trigger] self@.players[a].bind
                                is Some && #[trigger] self@.players[b].bind is Some implies self@
                            .players[a].bind->0 != self@.players[b].bind->0 by {
                            let a0 = if a < pi { a } else { a + 1 };
                            let b0 = if b < pi { b } else { b + 1 };
                            assert(self@.players[a] == old(self)@.players[a0]);
                            assert(self@.players[b] == old(self)@.players[b0]);
                        };
                        assert forall|a: int|
                            0 <= a < self@.players.len() && #[trigger] self@.players[a].bind
                                is Some implies 1 <= self@.players[a].bind->0 <= 31 by {
                            let a0 = if a < pi { a } else { a + 1 };
                            assert(self@.players[a] == old(self)@.players[a0]);
                        };
                        assert forall|a: int, b: int|
                            0 <= a < b < self@.players.len() implies #[trigger] self@.players[a]
                            .client_id != #[trigger] self@.players[b].client_id by {
                            let a0 = if a < pi { a } else { a + 1 };
                            let b0 = if b < pi { b } else { b + 1 };
                            assert(self@.players[a] == old(self)@.players[a0]);
                            assert(self@.players[b] == old(self)@.players[b0]);
                        };
                        assert(self@.wf());
                        assert forall|a: int|
                            0 <= a < self@.players.len() implies #[trigger] self@.players[a]
                            .client_id != client_id by {
                            let a0 = if a < pi { a } else { a + 1 };
                            assert(self@.players[a] == old(self)@.players[a0]);
                            if a0 != pi && old(self)@.players[a0].client_id == client_id {
                                assert(old(self)@.players[pi as int].client_id == client_id);
                            }
                        };
                        assert(!self@.spec_has_client(client_id));
                    }
                }
                true
            },
            None => false,
        }
    }

    /// Removes every object private to slot `bind`, returning the id and
    /// time of each removed object in storage order. Well-formedness is
    /// kept, and afterwards no private object of that slot remains.
    pub fn remove_private_of_slot(&mut self, bind: u8) -> (r: Vec<(i32, i32)>)
        ensures
            final(self)@ == (GameModel {
                vanjects: old(self)@.vanjects.filter(|v: VanjectModel| !spec_private_of(v, bind)),
                ..old(self)@
            }),
            r@ == old(self)@.vanjects.filter(|v: VanjectModel| spec_private_of(v, bind))
                .map_values(|v: VanjectModel| (v.id, v.time)),
            forall|k: int|
                0 <= k < final(self)@.vanjects.len() ==> !spec_private_of(
                    #[trigger] final(self)@.vanjects[k],
                    bind,
                ),
            old(self)@.wf() ==> final(self)@.wf(),
    {
        let ghost keep_pred = |v: VanjectModel| !spec_private_of(v, bind);
        let ghost drop_pred = |v: VanjectModel| spec_private_of(v, bind);
        let mut kept: Vec<Vanject> = Vec::new();
        let mut removed: Vec<(i32, i32)> = Vec::new();
        let mut k: usize = 0;
        while k < self.vanjects.len()
            invariant
                k <= self@.vanjects.len(),
                kept.deep_view() == self@.vanjects.take(k as int).filter(keep_pred),
                removed@ == self@.vanjects.take(k as int).filter(drop_pred).map_values(
                    |v: VanjectModel| (v.id, v.time),
                ),
                keep_pred == (|v: VanjectModel| !spec_private_of(v, bind)),
                drop_pred == (|v: VanjectModel| spec_private_of(v, bind)),
            decreases self@.vanjects.len() - k,
        {
            let v = &self.vanjects[k];
            let station = crate::vanject::get_station(v.id);
            let private = crate::vanject::is_private_vanject(v.id);
            let ghost kept_pre = kept;
            let ghost removed_pre = removed@;
            if station == bind as i32 && private {
                removed.push((v.id, v.time));
            } else {
                kept.push(
                    Vanject {
                        id: v.id,
                        player_bind_id: v.player_bind_id,
                        time: v.time,
                        pos: v.pos,
                        radius: v.radius,
                        body: vstd::slice::slice_to_vec(v.body.as_slice()),
                    },
                );
            }
            proof {
                reveal(Seq::filter);
                let taken = self@.vanjects.take(k + 1);
                assert(taken.drop_last() =~= self@.vanjects.take(k as int));
                assert(taken.last() == self@.vanjects[k as int]);
                if station == bind as i32 && private {
                    assert(spec_private_of(self@.vanjects[k as int], bind));
                    assert(taken.filter(keep_pred) =~= self@.vanjects.take(k as int).filter(
                        keep_pred,
                    ));
                    assert(removed@ =~= taken.filter(drop_pred).map_values(
                        |v: VanjectModel| (v.id, v.time),
                    ));
                } else {
                    assert(!spec_private_of(self@.vanjects[k as int], bind));
                    lemma_deep_view_push(&kept_pre, &kept);
                    assert(kept@[kept@.len() - 1]@ == self@.vanjects[k as int]);
                    assert(kept.deep_view() =~= taken.filter(keep_pred));
                    assert(removed@ =~= taken.filter(drop_pred).map_values(
                        |v: VanjectModel| (v.id, v.time),
                    ));
                }
            }
            k = k + 1;
        }
        proof {
            assert(self@.vanjects.take(self@.vanjects.len() as int) =~= self@.vanjects);
        }

        self.vanjects = kept;
        proof {
            assert(self@ =~= (GameModel {
                vanjects: old(self)@.vanjects.filter(keep_pred),
                ..old(self)@
            }));
            assert forall|idx: int|
                0 <= idx < self@.vanjects.len() implies !spec_private_of(
                #[trigger] self@.vanjects[idx],
                bind,
            ) by {
                old(self)@.vanjects.lemma_filter_pred(keep_pred, idx);
            }
            if old(self)@.wf() {
                assert forall|a: int, b: int|
                    0 <= a < b < self@.vanjects.len() implies #[trigger] self@.vanjects[a].id
                    != #[trigger] self@.vanjects[b].id by {
                    lemma_filter_two_indexes(old(self)@.vanjects, keep_pred, a, b);
                };
                assert(self@.wf());
            }
        }
        removed
    }
}

/// Two distinct positions of a filtered sequence come from two distinct
/// positions of the underlying sequence, in order.
proof fn lemma_filter_two_indexes<A>(s: Seq<A>, pred: spec_fn(A) -> bool, a: int, b: int)
    requires
        0 <= a < b < s.filter(pred).len(),
    ensures
        exists|a0: int, b0: int|
            0 <= a0 < b0 < s.len() && s[a0] == s.filter(pred)[a] && s[b0] == s.filter(pred)[b],
    decreases s.len(),
{
    reveal(Seq::filter);
    if s.len() > 0 {
        let f = s.filter(pred);
        let fd = s.drop_last().filter(pred);
        if pred(s.last()) {
            if b == f.len() - 1 {
                assert(f.last() == s.last());
                if a == f.len() - 1 {
                    assert(false);
                } else {
                    if fd.len() > 0 && a < fd.len() {
                        lemma_filter_in_source(s.drop_last(), pred, a);
                        let a0 = choose|a0: int|
                            0 <= a0 < s.drop_last().len() && s.drop_last()[a0] == fd[a];
                        assert(s[a0] == f[a]);
                        assert(s[s.len() - 1] == f[b]);
                        assert(0 <= a0 < s.len() - 1 < s.len());
                    }
                }
            } else {
                lemma_filter_two_indexes(s.drop_last(), pred, a, b);
                let (a0, b0) = choose|a0: int, b0: int|
                    0 <= a0 < b0 < s.drop_last().len() && s.drop_last()[a0] == fd[a]
                        && s.drop_last()[b0] == fd[b];
                assert(s[a0] == f[a] && s[b0] == f[b]);
            }
        } else {
            lemma_filter_two_indexes(s.drop_last(), pred, a, b);
            let (a0, b0) = choose|a0: int, b0: int|
                0 <= a0 < b0 < s.drop_last().len() && s.drop_last()[a0] == fd[a]
                    && s.drop_last()[b0] == fd[b];
            assert(s[a0] == f[a] && s[b0] == f[b]);
        }
    }
}

/// Every element of a filtered sequence stands somewhere in the underlying
/// sequence.
proof fn lemma_filter_in_source<A>(s: Seq<A>, pred: spec_fn(A) -> bool, a: int)
    requires
        0 <= a < s.filter(pred).len(),
    ensures
        exists|a0: int| 0 <= a0 < s.len() && s[a0] == s.filter(pred)[a],
    decreases s.len(),
{
    reveal(Seq::filter);
    if s.len() > 0 {
        let f = s.filter(pred);
        let fd = s.drop_last().filter(pred);
        if pred(s.last()) && a == f.len() - 1 {
            assert(s[s.len() - 1] == f[a]);
        } else {
            lemma_filter_in_source(s.drop_last(), pred, a);
            let a0 = choose|a0: int| 0 <= a0 < s.drop_last().len() && s.drop_last()[a0] == fd[a];
            assert(s[a0] == f[a]);
        }
    }
}

/// A sequence that holds a player of client `cid` anywhere holds a first one.
pub proof fn lemma_first_client_idx_exists(ps: Seq<PlayerModel>, cid: ClientID)
    requires
        exists|i: int| is_client_idx(ps, cid, i),
    ensures
        exists|i: int| is_first_client_idx(ps, cid, i),
    decreases ps.len(),
{
    if ps.len() > 0 {
        if ps[0].client_id == cid {
            assert(is_first_client_idx(ps, cid, 0));
        } else {
            let w = choose|i: int| is_client_idx(ps, cid, i);
            assert(is_client_idx(ps.skip(1), cid, w - 1));
            lemma_first_client_idx_exists(ps.skip(1), cid);
            let j = choose|i: int| is_first_client_idx(ps.skip(1), cid, i);
            assert forall|k: int| 0 <= k < j + 1 implies ps[k].client_id != cid by {
                if k > 0 {
                    assert(ps[k] == ps.skip(1)[k - 1]);
                }
            };
            assert(ps[j + 1] == ps.skip(1)[j]);
            assert(is_first_client_idx(ps, cid, j + 1));
        }
    }
}

/// Two bound players of one well-formed session never share a slot id.
pub proof fn lemma_bind_ids_distinct(g: GameModel, i: int, j: int)
    requires
        g.wf(),
        0 <= i < g.players.len(),
        0 <= j < g.players.len(),
        i != j,
        g.players[i].bind is Some,
        g.players[j].bind is Some,
    ensures
        g.players[i].bind->0 != g.players[j].bind->0,
{
}

/// Every bound player of a well-formed session holds a slot id in `[1, 31]`.
pub proof fn lemma_bind_id_in_range(g: GameModel, i: int)
    requires
        g.wf(),
        0 <= i < g.players.len(),
        g.players[i].bind is Some,
    ensures
        1 <= g.players[i].bind->0 <= 31,
{
}

} // verus!
