//! The store: every running game under its identifier.

use crate::game::{Game, GameView};
use std::collections::HashMap;
use vstd::prelude::*;
use vstd::std_specs::iter::IteratorSpec;

verus! {

broadcast use vstd::std_specs::hash::group_hash_axioms;

/// Whether every game of `games` is filed under its own identifier.
pub open spec fn keyed_by_id(games: Map<u64, GameView>) -> bool {
    forall|id: u64| #[trigger] games.contains_key(id) ==> games[id].id == id
}

/// The store that results from filing `games` one after the other into an
/// empty store: of two games with one identifier the later stays.
pub open spec fn filed(games: Seq<GameView>) -> Map<u64, GameView>
    decreases games.len(),
{
    if games.len() == 0 {
        Map::empty()
    } else {
        filed(games.drop_last()).insert(games.last().id, games.last())
    }
}

/// The games of `games` as mathematical values, in the same order.
pub open spec fn views_of(games: Seq<Game>) -> Seq<GameView> {
    games.map_values(|game: Game| game@)
}

/// Whether `all` lists the games of `games`: each entry is filed in `games`
/// under its identifier, and each game of `games` is an entry.
pub open spec fn lists_all(all: Seq<GameView>, games: Map<u64, GameView>) -> bool {
    &&& forall|i: int|
        0 <= i < all.len() ==> games.contains_key((#[trigger] all[i]).id) && games[all[i].id]
            == all[i]
    &&& forall|id: u64|
        games.contains_key(id) ==> exists|i: int| 0 <= i < all.len() && (#[trigger] all[i]).id == id
}

/// The games of a process, each under its identifier. The store owns them:
/// what it hands out is borrowed for the length of one operation.
#[derive(Debug)]
pub struct Database {
    games: HashMap<u64, Game>,
}

impl View for Database {
    type V = Map<u64, GameView>;

    /// The games by identifier, each as a mathematical value.
    closed spec fn view(&self) -> Map<u64, GameView> {
        self.games@.map_values(|game: Game| game@)
    }
}

impl Database {
    /// The store's invariant: every game is filed under its own identifier,
    /// so no two games of the store share one.
    pub open spec fn wf(&self) -> bool {
        keyed_by_id(self@)
    }

    /// Whether `found` is what `get` returns for `id`.
    pub open spec fn answers_get(&self, id: u64, found: Option<&Game>) -> bool {
        match found {
            Some(game) => Some(game@) == self.lookup(id) && game.id == id,
            None => self.lookup(id) is None,
        }
    }

    /// What `get` finds under `id`.
    pub open spec fn lookup(&self, id: u64) -> Option<GameView> {
        if self@.contains_key(id) {
            Some(self@[id])
        } else {
            None
        }
    }

    /// A store with no game in it.
    pub fn new() -> (store: Self)
        ensures
            store@ == Map::<u64, GameView>::empty(),
            store.wf(),
    {
        let store = Self { games: HashMap::new() };
        assert(store@ =~= Map::<u64, GameView>::empty());
        store
    }

    /// Files `game` under its identifier, in place of the game that was there,
    /// if one was. Every other game stays as it is.
    pub fn insert(&mut self, game: Game)
        requires
            old(self).wf(),
        ensures
            final(self)@ == old(self)@.insert(game.id, game@),
            final(self).wf(),
    {
        let ghost before = self.games@;
        self.games.insert(game.id, game);
        assert(self@ =~= before.map_values(|game: Game| game@).insert(game.id, game@));
    }

    /// The game under `id`, if there is one. The store is left as it is.
    pub fn get(&self, id: &u64) -> (found: Option<&Game>)
        requires
            self.wf(),
        ensures
            self.answers_get(*id, found),
    {
        self.games.get(id)
    }

    /// Every game of the store, each once, in no promised order.
    pub fn get_all(&self) -> (all: Vec<&Game>)
        requires
            self.wf(),
        ensures
            all.len() == self@.len(),
            lists_all(all@.map_values(|game: &Game| game@), self@),
            forall|i: int, j: int|
                0 <= i < j < all.len() ==> (#[trigger] all[i]).id != (#[trigger] all[j]).id,
    {
        let mut all: Vec<&Game> = Vec::new();
        let entries = self.games.iter();
        let ghost pairs: Seq<(&u64, &Game)> = entries.remaining();
        assert(pairs.no_duplicates());
        assert(pairs.len() == self.games@.dom().len());
        assert(self@.dom() =~= self.games@.dom());
        for entry in it: entries
            invariant
                it.seq() == pairs,
                all.len() == it.index(),
                forall|i: int| 0 <= i < all.len() ==> *(#[trigger] all[i]) == *pairs[i].1,
        {
            all.push(entry.1);
        }
        proof {
            let listed = all@.map_values(|game: &Game| game@);
            assert forall|i: int| 0 <= i < listed.len() implies self@.contains_key(
                (#[trigger] listed[i]).id,
            ) && self@[listed[i].id] == listed[i] by {
                assert(listed[i] == all[i]@);
                assert(self.games@.contains_key(*pairs[i].0));
            }
            assert forall|id: u64| self@.contains_key(id) implies exists|i: int|
                0 <= i < listed.len() && (#[trigger] listed[i]).id == id by {
                assert(self.games@.contains_key(id));
                assert(pairs.contains((&id, &self.games@[id])));
                let i = choose|i: int| 0 <= i < pairs.len() && pairs[i] == (&id, &self.games@[id]);
                assert(listed[i] == all[i]@);
            }
            assert forall|i: int, j: int| 0 <= i < j < all.len() implies (#[trigger] all[i]).id
                != (#[trigger] all[j]).id by {
                assert(self.games@.contains_key(*pairs[i].0));
                assert(self.games@.contains_key(*pairs[j].0));
                if all[i].id == all[j].id {
                    assert(pairs[i] == pairs[j]);
                }
            }
        }
        all
    }

    /// Removes the game under `id`. Where there is none, nothing changes.
    pub fn delete(&mut self, id: &u64)
        requires
            old(self).wf(),
        ensures
            final(self)@ == old(self)@.remove(*id),
            final(self).wf(),
    {
        let ghost before = self.games@;
        self.games.remove(id);
        assert(self@ =~= before.map_values(|game: Game| game@).remove(*id));
    }

    /// The store that holds the games of `games`, filed one after the other:
    /// of two games with one identifier the later stays.
    pub fn from_games(games: &Vec<Game>) -> (store: Self)
        ensures
            store@ == filed(views_of(games@)),
            store.wf(),
    {
        let mut store = Self::new();
        let mut next: usize = 0;
        assert(views_of(games@).take(0) =~= Seq::<GameView>::empty());
        while next < games.len()
            invariant
                next <= games.len(),
                store.wf(),
                store@ == filed(views_of(games@).take(next as int)),
            decreases games.len() - next,
        {
            let ghost done = views_of(games@).take(next as int);
            let ghost grown = views_of(games@).take(next + 1);
            assert(grown.drop_last() =~= done);
            assert(grown.last() == games[next as int]@);
            store.insert(games[next].clone());
            next = next + 1;
        }
        assert(views_of(games@).take(next as int) =~= views_of(games@));
        store
    }

    /// Files `game` under its identifier, as `insert` does: the game replaces
    /// the one that was there whole, and no field of the old one is kept.
    pub fn update(&mut self, game: Game)
        requires
            old(self).wf(),
        ensures
            final(self)@ == old(self)@.insert(game.id, game@),
            final(self).wf(),
    {
        self.insert(game);
    }
}

/// Filing a game twice is filing it once.
pub proof fn lemma_insert_is_idempotent(games: Map<u64, GameView>, game: GameView)
    ensures
        games.insert(game.id, game).insert(game.id, game) == games.insert(game.id, game),
{
    assert(games.insert(game.id, game).insert(game.id, game) =~= games.insert(game.id, game));
}

/// Filing a game replaces the one under its identifier and no other: a second
/// game filed under the same identifier leaves nothing of the first.
pub proof fn lemma_insert_overwrites(games: Map<u64, GameView>, first: GameView, second: GameView)
    requires
        first.id == second.id,
    ensures
        games.insert(first.id, first).insert(second.id, second) == games.insert(
            second.id,
            second,
        ),
{
    assert(games.insert(first.id, first).insert(second.id, second) =~= games.insert(
        second.id,
        second,
    ));
}

/// Deleting under an identifier that holds no game changes nothing.
pub proof fn lemma_delete_of_absent_is_no_op(games: Map<u64, GameView>, id: u64)
    requires
        !games.contains_key(id),
    ensures
        games.remove(id) == games,
{
    assert(games.remove(id) =~= games);
}

/// Two answers of `get` for one identifier, with the store unchanged between
/// them, are the same: both absent, or both the same game.
pub proof fn lemma_get_is_repeatable(
    store: Database,
    id: u64,
    first: Option<&Game>,
    second: Option<&Game>,
)
    requires
        store.answers_get(id, first),
        store.answers_get(id, second),
    ensures
        match (first, second) {
            (Some(a), Some(b)) => a@ == b@,
            (None, None) => true,
            _ => false,
        },
{
}

/// Filing games that all come from one store yields a part of that store.
proof fn lemma_filed_within(all: Seq<GameView>, games: Map<u64, GameView>)
    requires
        forall|i: int|
            0 <= i < all.len() ==> games.contains_key((#[trigger] all[i]).id) && games[all[i].id]
                == all[i],
    ensures
        forall|id: u64| #[trigger]
            filed(all).contains_key(id) ==> games.contains_key(id) && filed(all)[id] == games[id],
        forall|i: int| 0 <= i < all.len() ==> filed(all).contains_key((#[trigger] all[i]).id),
    decreases all.len(),
{
    if all.len() > 0 {
        let front = all.drop_last();
        assert forall|i: int| 0 <= i < front.len() implies games.contains_key(
            (#[trigger] front[i]).id,
        ) && games[front[i].id] == front[i] by {
            assert(front[i] == all[i]);
        }
        lemma_filed_within(front, games);
        assert(all.last() == all[all.len() - 1]);
        assert forall|id: u64| #[trigger] filed(all).contains_key(id) implies games.contains_key(
            id,
        ) && filed(all)[id] == games[id] by {
            if id != all.last().id {
                assert(filed(front).contains_key(id));
            }
        }
        assert forall|i: int| 0 <= i < all.len() implies filed(all).contains_key(
            (#[trigger] all[i]).id,
        ) by {
            if i < front.len() {
                assert(front[i] == all[i]);
            }
        }
    }
}

/// A store rebuilt from a list of all its games is the store: the same
/// identifiers, and under each the same game. This is what lets a snapshot
/// that was written out stand for the store when it is read back.
pub proof fn lemma_snapshot_restores(all: Seq<GameView>, games: Map<u64, GameView>)
    requires
        lists_all(all, games),
    ensures
        filed(all) == games,
{
    lemma_filed_within(all, games);
    assert forall|id: u64| games.contains_key(id) implies filed(all).contains_key(id) by {
        let i = choose|i: int| 0 <= i < all.len() && (#[trigger] all[i]).id == id;
        assert(filed(all).contains_key(all[i].id));
    }
    assert(filed(all) =~= games);
}

} // verus!
