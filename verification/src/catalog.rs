//! The local, cross-user catalog of known games.
//!
//! Identity resolution: a game is found by its external id where one is
//! known, else by exact name among the games that have no external id.
//! The catalog keeps at most one game per distinct external id, assigns
//! ids densely, and never changes a game once created (names are kept as
//! first observed).
use vstd::prelude::*;

use crate::model::{Game, GameEntry, GameKey, GameKeyV, GameV};

verus! {

/// Whether a stored game is the one a key identifies.
pub open spec fn key_matches(g: GameV, key: GameKeyV) -> bool {
    match key {
        GameKeyV::ByExternalId(e) => g.external_id == Some(e),
        GameKeyV::ByName(n) => g.external_id is None && g.name == n,
    }
}

/// The id of the first game from position `i` on that the key identifies.
pub open spec fn lookup_from(s: Seq<GameV>, key: GameKeyV, i: int) -> Option<i64>
    decreases s.len() - i,
{
    if i < 0 || i >= s.len() {
        None
    } else if key_matches(s[i], key) {
        Some(s[i].id)
    } else {
        lookup_from(s, key, i + 1)
    }
}

/// The id of the first game the key identifies, if any.
pub open spec fn spec_lookup(s: Seq<GameV>, key: GameKeyV) -> Option<i64> {
    lookup_from(s, key, 0)
}

/// The game a miss creates: the next dense id, the key's own identity, and
/// the observed name.
pub open spec fn created_game(next_id: int, key: GameKeyV, name: Seq<char>) -> GameV {
    match key {
        GameKeyV::ByExternalId(e) => GameV {
            id: next_id as i64,
            name: name,
            external_id: Some(e),
        },
        GameKeyV::ByName(n) => GameV { id: next_id as i64, name: n, external_id: None },
    }
}

/// The catalog after a resolve-or-create: unchanged on a hit, one game
/// appended on a miss.
pub open spec fn spec_resolve_catalog(s: Seq<GameV>, key: GameKeyV, name: Seq<char>) -> Seq<
    GameV,
> {
    if spec_lookup(s, key) is Some {
        s
    } else {
        s.push(created_game(s.len() as int, key, name))
    }
}

/// The id a resolve-or-create returns: the found game's id on a hit, the
/// newly assigned id on a miss.
pub open spec fn spec_resolve_id(s: Seq<GameV>, key: GameKeyV, name: Seq<char>) -> i64 {
    match spec_lookup(s, key) {
        Some(id) => id,
        None => s.len() as i64,
    }
}

/// Well-formedness of the stored sequence: ids are dense (the game at
/// position `i` has id `i`), and no two games share a non-null external id.
pub open spec fn catalog_wf(s: Seq<GameV>) -> bool {
    &&& forall|i: int| 0 <= i < s.len() ==> (#[trigger] s[i]).id == i
    &&& forall|i: int, j: int|
        0 <= i < s.len() && 0 <= j < s.len() && i != j && (#[trigger] s[i]).external_id is Some
            ==> s[i].external_id != (#[trigger] s[j]).external_id
}

/// Everything a miss tells us: no game from position `i` on matches the key.
pub proof fn lemma_lookup_none(s: Seq<GameV>, key: GameKeyV, i: int)
    requires
        0 <= i,
        lookup_from(s, key, i) is None,
    ensures
        forall|j: int| i <= j < s.len() ==> !key_matches(#[trigger] s[j], key),
    decreases s.len() - i,
{
    if i < s.len() {
        lemma_lookup_none(s, key, i + 1);
    }
}

/// Everything a hit tells us, on a well-formed catalog: the returned id is
/// a position in the catalog, the game there matches the key, and no game
/// before it does.
pub proof fn lemma_lookup_some(s: Seq<GameV>, key: GameKeyV, i: int, id: i64)
    requires
        0 <= i,
        catalog_wf(s),
        lookup_from(s, key, i) == Some(id),
    ensures
        i <= id < s.len(),
        key_matches(s[id as int], key),
        forall|j: int| i <= j < id ==> !key_matches(#[trigger] s[j], key),
    decreases s.len() - i,
{
    if i < s.len() && !key_matches(s[i], key) {
        lemma_lookup_some(s, key, i + 1, id);
    }
}

/// The local catalog of games. Its view is the sequence of stored games.
pub struct GameCatalog {
    games: Vec<Game>,
}

impl View for GameCatalog {
    type V = Seq<GameV>;

    closed spec fn view(&self) -> Seq<GameV> {
        self.games@.map_values(|g: Game| g@)
    }
}

impl GameCatalog {
    /// The catalog's invariant, over its view.
    pub open spec fn wf(&self) -> bool {
        catalog_wf(self@)
    }

    /// An empty catalog.
    pub fn new() -> (c: GameCatalog)
        ensures
            c@ == Seq::<GameV>::empty(),
            c.wf(),
    {
        let c = GameCatalog { games: Vec::new() };
        proof {
            assert(c@ =~= Seq::<GameV>::empty());
        }
        c
    }

    /// How many games the catalog holds.
    pub fn len(&self) -> (n: usize)
        ensures
            n == self@.len(),
    {
        self.games.len()
    }

    /// The game at position `i`.
    pub fn get(&self, i: usize) -> (g: &Game)
        requires
            i < self@.len(),
        ensures
            g@ == self@[i as int],
    {
        &self.games[i]
    }

    /// The id of the first game the key identifies, if any: external id
    /// lookup for `ByExternalId`, exact name match among games without an
    /// external id for `ByName`. A miss is the expected negative result of
    /// the lookup step, not a fault.
    pub fn lookup(&self, key: &GameKey) -> (r: Option<i64>)
        ensures
            r == spec_lookup(self@, key@),
    {
        let n = self.games.len();
        let mut i: usize = 0;
        while i < n
            invariant
                0 <= i <= n,
                n == self@.len(),
                n == self.games@.len(),
                lookup_from(self@, key@, 0) == lookup_from(self@, key@, i as int),
            decreases n - i,
        {
            let g = &self.games[i];
            let hit = match (key, &g.external_id) {
                (GameKey::ByExternalId(e), Some(ge)) => *ge == *e,
                (GameKey::ByName(n), None) => *n == g.name,
                _ => false,
            };
            if hit {
                assert(key_matches(self@[i as int], key@));
                return Some(g.id);
            }
            assert(!key_matches(self@[i as int], key@));
            i = i + 1;
        }
        None
    }

    /// Resolve a game to its catalog id, creating it on first observation.
    ///
    /// On a hit the catalog is unchanged: in particular the stored name is
    /// kept as first observed, and the external id never drifts. On a miss
    /// a game with the next dense id is appended. A miss of the lookup step
    /// never surfaces to the caller.
    pub fn resolve_or_create(&mut self, key: GameKey, name: String) -> (id: i64)
        requires
            old(self).wf(),
            old(self)@.len() < i64::MAX,
        ensures
            final(self).wf(),
            final(self)@ == spec_resolve_catalog(old(self)@, key@, name@),
            id == spec_resolve_id(old(self)@, key@, name@),
    {
        match self.lookup(&key) {
            Some(id) => id,
            None => {
                let id = self.games.len() as i64;
                let g = match key {
                    GameKey::ByExternalId(e) => Game { id, name, external_id: Some(e) },
                    GameKey::ByName(n) => Game { id, name: n, external_id: None },
                };
                proof {
                    lemma_lookup_none(old(self)@, key@, 0);
                }
                self.games.push(g);
                proof {
                    assert(self@ =~= old(self)@.push(
                        created_game(old(self)@.len() as int, key@, name@),
                    ));
                }
                id
            },
        }
    }

    /// Adopt a stored table of games, after checking the catalog's
    /// invariant: ids dense, external ids unique. Returns the catalog
    /// exactly when the table is well formed.
    pub fn from_games(games: Vec<Game>) -> (r: Option<GameCatalog>)
        ensures
            match r {
                Some(c) => c@ == game_views(games@) && c.wf(),
                None => !catalog_wf(game_views(games@)),
            },
    {
        let ghost s = game_views(games@);
        let n = games.len();
        let mut i: usize = 0;
        while i < n
            invariant
                i <= n,
                n == games@.len(),
                s == game_views(games@),
                forall|k: int| 0 <= k < i ==> (#[trigger] s[k]).id == k,
            decreases n - i,
        {
            let dense = games[i].id >= 0 && (games[i].id as u64) == (i as u64);
            if !dense {
                proof {
                    assert(s[i as int].id != i as int);
                    assert(!catalog_wf(s));
                }
                return None;
            }
            i = i + 1;
        }
        let mut a: usize = 0;
        while a < n
            invariant
                a <= n,
                n == games@.len(),
                s == game_views(games@),
                forall|k: int| 0 <= k < n ==> (#[trigger] s[k]).id == k,
                forall|x: int, y: int|
                    0 <= x < a && x < y < n && (#[trigger] s[x]).external_id is Some ==> s[x].external_id
                        != (#[trigger] s[y]).external_id,
            decreases n - a,
        {
            let mut b: usize = a + 1;
            while b < n
                invariant
                    a < b <= n,
                    a < n,
                    n == games@.len(),
                    s == game_views(games@),
                    forall|y: int|
                        a < y < b && (#[trigger] s[a as int]).external_id is Some
                            ==> s[a as int].external_id != (#[trigger] s[y]).external_id,
                decreases n - b,
            {
                let clash = match (&games[a].external_id, &games[b].external_id) {
                    (Some(x), Some(y)) => *x == *y,
                    _ => false,
                };
                if clash {
                    proof {
                        assert(s[a as int].external_id is Some);
                        assert(s[a as int].external_id == s[b as int].external_id);
                        assert(!catalog_wf(s));
                    }
                    return None;
                }
                b = b + 1;
            }
            a = a + 1;
        }
        proof {
            assert forall|x: int, y: int|
                0 <= x < s.len() && 0 <= y < s.len() && x != y && (#[trigger] s[x]).external_id is Some
                implies s[x].external_id != (#[trigger] s[y]).external_id by {
                if x < y {
                } else {
                    if s[y].external_id is Some {
                    } else {
                    }
                }
            }
            assert(catalog_wf(s));
        }
        let c = GameCatalog { games };
        proof {
            assert(c@ == s);
        }
        Some(c)
    }
}

/// The images of a sequence of games.
pub open spec fn game_views(s: Seq<Game>) -> Seq<GameV> {
    s.map_values(|g: Game| g@)
}

/// Resolve one fetched library entry against the catalog by its external
/// id, creating the game on first observation, and return the catalog id.
pub fn upsert_game(catalog: &mut GameCatalog, entry: &GameEntry) -> (id: i64)
    requires
        old(catalog).wf(),
        old(catalog)@.len() < i64::MAX,
    ensures
        final(catalog).wf(),
        final(catalog)@ == spec_resolve_catalog(
            old(catalog)@,
            GameKeyV::ByExternalId(entry.external_id),
            entry.name@,
        ),
        id == spec_resolve_id(
            old(catalog)@,
            GameKeyV::ByExternalId(entry.external_id),
            entry.name@,
        ),
{
    catalog.resolve_or_create(GameKey::ByExternalId(entry.external_id), entry.name.clone())
}

} // verus!
