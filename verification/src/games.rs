//! The registry of all sessions on the server, keyed by session id.

use crate::client::ClientID;
use crate::game::{is_first_client_idx, Game, GameID, GameModel};
use crate::player::Player;
use crate::utils::{lemma_deep_view_push, lemma_deep_view_remove, lemma_deep_view_update};
use vstd::prelude::*;

verus! {

/// All sessions, in creation order.
pub struct Games(pub Vec<Game>);

/// Whether index `i` holds the first session of id `id`.
pub open spec fn is_first_game_idx(gs: Seq<GameModel>, id: GameID, i: int) -> bool {
    &&& 0 <= i < gs.len()
    &&& gs[i].id == id
    &&& forall|j: int| 0 <= j < i ==> gs[j].id != id
}

/// Whether index `i` holds the first session that client `cid` is in.
pub open spec fn is_first_game_of_client(gs: Seq<GameModel>, cid: ClientID, i: int) -> bool {
    &&& 0 <= i < gs.len()
    &&& gs[i].spec_has_client(cid)
    &&& forall|j: int| 0 <= j < i ==> !(#[trigger] gs[j].spec_has_client(cid))
}

impl Games {
    /// The sessions' values, in creation order.
    pub open spec fn games(&self) -> Seq<GameModel> {
        self.0.deep_view()
    }

    /// The registry's structural invariants: session ids unique, every
    /// session well formed, and every client in at most one session.
    pub open spec fn wf(&self) -> bool {
        &&& forall|i: int, j: int|
            0 <= i < j < self.games().len() ==> #[trigger] self.games()[i].id
                != #[trigger] self.games()[j].id
        &&& forall|i: int| 0 <= i < self.games().len() ==> (#[trigger] self.games()[i]).wf()
        &&& forall|i: int, j: int, c: ClientID|
            0 <= i < j < self.games().len() && #[trigger] self.games()[i].spec_has_client(c)
                ==> !(#[trigger] self.games()[j].spec_has_client(c))
    }

    /// Whether every session holds at least one player. Sessions are created
    /// only together with their first player and die when the last leaves.
    pub open spec fn all_nonempty(&self) -> bool {
        forall|i: int| 0 <= i < self.games().len() ==> (#[trigger] self.games()[i]).players.len()
            > 0
    }

    /// Whether a session of id `id` exists.
    pub open spec fn spec_has_game_id(&self, id: GameID) -> bool {
        exists|i: int| 0 <= i < self.games().len() && (#[trigger] self.games()[i]).id == id
    }

    /// Whether client `cid` is in some session.
    pub open spec fn spec_has_client(&self, cid: ClientID) -> bool {
        exists|i: int|
            0 <= i < self.games().len() && (#[trigger] self.games()[i]).spec_has_client(cid)
    }

    /// An empty registry.
    pub fn new() -> (r: Self)
        ensures
            r.games().len() == 0,
            r.wf(),
            r.all_nonempty(),
    {
        Self(Vec::new())
    }

    /// The index of the session of id `id`, if any.
    pub fn game_index_by_id(&self, id: GameID) -> (r: Option<usize>)
        ensures
            r is Some <==> self.spec_has_game_id(id),
            r matches Some(i) ==> is_first_game_idx(self.games(), id, i as int),
    {
        let mut i: usize = 0;
        while i < self.0.len()
            invariant
                i <= self.games().len(),
                forall|j: int| 0 <= j < i ==> self.games()[j].id != id,
            decreases self.games().len() - i,
        {
            if self.0[i].id == id {
                assert(self.games()[i as int].id == id);
                return Some(i);
            }
            i = i + 1;
        }
        None
    }

    /// The session of id `id`, if any.
    pub fn get_game_by_id(&self, id: GameID) -> (r: Option<&Game>)
        ensures
            r is Some <==> self.spec_has_game_id(id),
            r matches Some(g) ==> g@.id == id && exists|i: int|
                is_first_game_idx(self.games(), id, i) && g@ == self.games()[i],
    {
        match self.game_index_by_id(id) {
            Some(i) => Some(&self.0[i]),
            None => None,
        }
    }

    /// The index of the session that client `cid` is in, if any.
    pub fn game_index_by_client(&self, client_id: ClientID) -> (r: Option<usize>)
        ensures
            r is Some <==> self.spec_has_client(client_id),
            r matches Some(i) ==> is_first_game_of_client(self.games(), client_id, i as int),
    {
        let mut i: usize = 0;
        while i < self.0.len()
            invariant
                i <= self.games().len(),
                forall|j: int|
                    0 <= j < i ==> !(#[trigger] self.games()[j].spec_has_client(client_id)),
            decreases self.games().len() - i,
        {
            if self.0[i].player_index(client_id).is_some() {
                assert(self.games()[i as int] == self.0@[i as int]@);
                return Some(i);
            }
            i = i + 1;
        }
        None
    }

    /// The session that client `cid` is in, if any.
    pub fn get_game_by_client_id(&self, client_id: ClientID) -> (r: Option<&Game>)
        ensures
            r is Some <==> self.spec_has_client(client_id),
            r matches Some(g) ==> g@.spec_has_client(client_id) && exists|i: int|
                is_first_game_of_client(self.games(), client_id, i) && g@ == self.games()[i],
    {
        match self.game_index_by_client(client_id) {
            Some(i) => Some(&self.0[i]),
            None => None,
        }
    }

    /// The session and player of client `cid`, if any.
    pub fn get_player_by_client_id(&self, client_id: ClientID) -> (r: Option<(&Game, &Player)>)
        ensures
            r is Some <==> self.spec_has_client(client_id),
            r matches Some((g, p)) ==> {
                &&& p.client_id == client_id
                &&& g@.spec_has_client(client_id)
                &&& exists|i: int|
                    is_first_game_of_client(self.games(), client_id, i) && g@ == self.games()[i]
                &&& exists|k: int|
                    is_first_client_idx(g@.players, client_id, k) && p@ == g@.players[k]
            },
    {
        match self.game_index_by_client(client_id) {
            Some(i) => {
                let game = &self.0[i];
                match game.player_index(client_id) {
                    Some(k) => Some((game, &game.players[k])),
                    None => None,
                }
            },
            None => None,
        }
    }

    /// Stores a session under `id`: replaces the first session of that id,
    /// or appends the session when the id is new.
    pub fn insert(&mut self, id: GameID, game: Game)
        ensures
            !old(self).spec_has_game_id(id) ==> final(self).games() == old(self).games().push(
                game@,
            ),
            forall|i: int|
                #[trigger] is_first_game_idx(old(self).games(), id, i) ==> final(self).games()
                    == old(self).games().update(i, game@),
    {
        let ghost pre = self.0;
        match self.game_index_by_id(id) {
            Some(i) => {
                self.0[i] = game;
                proof {
                    lemma_deep_view_update(&pre, &self.0, i as int);
                }
            },
            None => {
                self.0.push(game);
                proof {
                    lemma_deep_view_push(&pre, &self.0);
                }
            },
        }
    }

    /// Creates an empty session under `id`; errs when the id is taken.
    pub fn create(&mut self, id: GameID) -> (r: Result<GameID, String>)
        ensures
            r is Ok <==> !old(self).spec_has_game_id(id),
            r is Ok ==> r->Ok_0 == id && final(self).games() == old(self).games().push(
                GameModel {
                    id,
                    name: Seq::<u8>::empty(),
                    players: Seq::empty(),
                    worlds: Seq::empty(),
                    config: None,
                    vanjects: Seq::empty(),
                },
            ),
            r is Err ==> final(self).games() == old(self).games(),
            old(self).wf() ==> final(self).wf(),
    {
        if self.game_index_by_id(id).is_some() {
            return Err("game already exists with that id".to_owned());
        }

        let game = Game::new(id);
        let ghost pre = self.0;
        self.0.push(game);
        proof {
            lemma_deep_view_push(&pre, &self.0);
            let n = old(self).games().len() as int;
            if old(self).wf() {
                assert forall|i: int, j: int, c: ClientID|
                    0 <= i < j < self.games().len() && #[trigger] self.games()[i].spec_has_client(
                        c,
                    ) implies !(#[trigger] self.games()[j].spec_has_client(c)) by {
                    if j == n {
                        assert(self.games()[j].players.len() == 0);
                    }
                };
                assert(self.wf());
            }
        }
        Ok(id)
    }

    /// Removes the session of id `id`, saying whether one existed; the
    /// registry is unchanged when no session has that id.
    pub fn remove(&mut self, id: GameID) -> (r: bool)
        ensures
            r <==> old(self).spec_has_game_id(id),
            !r ==> final(self).games() == old(self).games(),
            forall|i: int|
                #[trigger] is_first_game_idx(old(self).games(), id, i) ==> final(self).games()
                    == old(self).games().remove(i),
            old(self).wf() ==> final(self).wf(),
            old(self).all_nonempty() ==> final(self).all_nonempty(),
    {
        match self.game_index_by_id(id) {
            Some(i) => {
                let ghost pre = self.0;
                self.0.remove(i);
                proof {
                    lemma_deep_view_remove(&pre, &self.0, i as int);
                    if old(self).wf() {
                        assert forall|a: int, b: int, c: ClientID|
                            0 <= a < b < self.games().len() && #[trigger] self.games()[
                                a
                            ].spec_has_client(c) implies !(#[trigger] self.games()[
                            b
                        ].spec_has_client(c)) by {
                            let a0 = if a < i { a } else { a + 1 };
                            let b0 = if b < i { b } else { b + 1 };
                            assert(self.games()[a] == old(self).games()[a0]);
                            assert(self.games()[b] == old(self).games()[b0]);
                        };
                        assert(self.wf());
                    }
                }
                true
            },
            None => false,
        }
    }
}

/// A registry that holds client `cid` anywhere holds a first session of it.
pub proof fn lemma_first_game_of_client_exists(gs: Seq<GameModel>, cid: ClientID)
    requires
        exists|i: int| 0 <= i < gs.len() && (#[trigger] gs[i]).spec_has_client(cid),
    ensures
        exists|i: int| is_first_game_of_client(gs, cid, i),
    decreases gs.len(),
{
    if gs.len() > 0 {
        if gs[0].spec_has_client(cid) {
            assert(is_first_game_of_client(gs, cid, 0));
        } else {
            let w = choose|i: int| 0 <= i < gs.len() && (#[trigger] gs[i]).spec_has_client(cid);
            assert(gs.skip(1)[w - 1] == gs[w]);
            lemma_first_game_of_client_exists(gs.skip(1), cid);
            let j = choose|i: int| is_first_game_of_client(gs.skip(1), cid, i);
            assert forall|k: int| 0 <= k < j + 1 implies !(#[trigger] gs[k].spec_has_client(
                cid,
            )) by {
                if k > 0 {
                    assert(gs[k] == gs.skip(1)[k - 1]);
                }
            };
            assert(gs[j + 1] == gs.skip(1)[j]);
            assert(is_first_game_of_client(gs, cid, j + 1));
        }
    }
}

/// Updating one session in place keeps the registry well formed, provided
/// the session stays well formed, keeps its id, and gains no client.
pub proof fn lemma_wf_update_no_new_client(pre: &Games, post: &Games, gi: int)
    requires
        pre.wf(),
        0 <= gi < pre.games().len(),
        post.games() == pre.games().update(gi, post.games()[gi]),
        post.games()[gi].wf(),
        post.games()[gi].id == pre.games()[gi].id,
        forall|c: ClientID| #[trigger] post.games()[gi].spec_has_client(c) ==> pre.games()[
            gi
        ].spec_has_client(c),
    ensures
        post.wf(),
{
    assert forall|i: int, j: int, c: ClientID|
        0 <= i < j < post.games().len() && #[trigger] post.games()[i].spec_has_client(c)
            implies !(#[trigger] post.games()[j].spec_has_client(c)) by {
        if i != gi && j != gi {
            assert(pre.games()[i].spec_has_client(c));
            assert(!pre.games()[j].spec_has_client(c));
        } else if i == gi {
            assert(pre.games()[i].spec_has_client(c));
            assert(!pre.games()[j].spec_has_client(c));
        } else {
            assert(pre.games()[i].spec_has_client(c));
            if post.games()[j].spec_has_client(c) {
                assert(pre.games()[j].spec_has_client(c));
            }
        }
    };
    assert forall|i: int, j: int|
        0 <= i < j < post.games().len() implies #[trigger] post.games()[i].id
        != #[trigger] post.games()[j].id by {
        assert(pre.games()[i].id == post.games()[i].id);
        assert(pre.games()[j].id == post.games()[j].id);
    };
}

/// Updating one session in place keeps the registry well formed when the
/// session gains exactly one client that no session held before.
pub proof fn lemma_wf_update_add_client(pre: &Games, post: &Games, gi: int, c0: ClientID)
    requires
        pre.wf(),
        0 <= gi < pre.games().len(),
        post.games() == pre.games().update(gi, post.games()[gi]),
        post.games()[gi].wf(),
        post.games()[gi].id == pre.games()[gi].id,
        forall|c: ClientID| #[trigger] post.games()[gi].spec_has_client(c) ==> pre.games()[
            gi
        ].spec_has_client(c) || c == c0,
        !pre.spec_has_client(c0),
    ensures
        post.wf(),
{
    assert forall|i: int, j: int, c: ClientID|
        0 <= i < j < post.games().len() && #[trigger] post.games()[i].spec_has_client(c)
            implies !(#[trigger] post.games()[j].spec_has_client(c)) by {
        if i == gi {
            if c == c0 {
                if post.games()[j].spec_has_client(c) {
                    assert(pre.games()[j].spec_has_client(c0));
                    assert(pre.spec_has_client(c0));
                }
            } else {
                assert(pre.games()[i].spec_has_client(c));
                if post.games()[j].spec_has_client(c) {
                    assert(pre.games()[j].spec_has_client(c));
                }
            }
        } else if j == gi {
            assert(pre.games()[i].spec_has_client(c));
            if post.games()[j].spec_has_client(c) {
                if c == c0 {
                    assert(pre.spec_has_client(c0));
                } else {
                    assert(pre.games()[j].spec_has_client(c));
                }
            }
        } else {
            assert(pre.games()[i].spec_has_client(c));
            assert(!pre.games()[j].spec_has_client(c));
        }
    };
    assert forall|i: int, j: int|
        0 <= i < j < post.games().len() implies #[trigger] post.games()[i].id
        != #[trigger] post.games()[j].id by {
        assert(pre.games()[i].id == post.games()[i].id);
        assert(pre.games()[j].id == post.games()[j].id);
    };
}

} // verus!
