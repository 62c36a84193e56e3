//! In-memory stores shared by all callers: the map from game identifier to
//! game, and the registry of each game's human player sign.

use vstd::prelude::*;
use crate::game::{Game, GameView};

verus! {

/// The map described by a sequence of key/value entries, later entries
/// winning over earlier ones; each value is taken at its view.
pub open spec fn entries_map<V: View>(s: Seq<(String, V)>) -> Map<Seq<char>, V::V>
    decreases s.len(),
{
    if s.len() == 0 {
        Map::empty()
    } else {
        entries_map(s.drop_last()).insert(s.last().0@, s.last().1@)
    }
}

/// No two entries share a key.
pub open spec fn distinct_keys<V>(s: Seq<(String, V)>) -> bool {
    forall|i: int, j: int| #![trigger s[i], s[j]] 0 <= i < j < s.len() ==> s[i].0@ != s[j].0@
}

/// A key is in the map exactly when some entry carries it.
pub proof fn lemma_entries_map_contains<V: View>(s: Seq<(String, V)>, k: Seq<char>)
    ensures
        entries_map(s).contains_key(k) <==> exists|i: int| 0 <= i < s.len() && (#[trigger] s[i]).0@ == k,
    decreases s.len(),
{
    if s.len() > 0 {
        let d = s.drop_last();
        lemma_entries_map_contains(d, k);
        assert(forall|i: int| 0 <= i < d.len() ==> d[i] == s[i]);
        if entries_map(s).contains_key(k) {
            if k != s.last().0@ {
                let i = choose|i: int| 0 <= i < d.len() && (#[trigger] d[i]).0@ == k;
                assert(s[i].0@ == k);
            } else {
                assert(s[s.len() - 1].0@ == k);
            }
        }
        if exists|i: int| 0 <= i < s.len() && (#[trigger] s[i]).0@ == k {
            let i = choose|i: int| 0 <= i < s.len() && (#[trigger] s[i]).0@ == k;
            if i < s.len() - 1 {
                assert(d[i].0@ == k);
            }
        }
    }
}

/// With distinct keys, the entry at `i` gives the map's value at its key.
pub proof fn lemma_entries_map_index<V: View>(s: Seq<(String, V)>, i: int)
    requires
        distinct_keys(s),
        0 <= i < s.len(),
    ensures
        entries_map(s).contains_key(s[i].0@),
        entries_map(s)[s[i].0@] == s[i].1@,
    decreases s.len(),
{
    let d = s.drop_last();
    assert(forall|j: int| 0 <= j < d.len() ==> d[j] == s[j]);
    if i < s.len() - 1 {
        assert(distinct_keys(d));
        lemma_entries_map_index(d, i);
        assert(s[i].0@ != s[s.len() - 1].0@);
    }
}

/// Overwriting the entry at `i` with an entry of the same key is the map's
/// insert at that key.
pub proof fn lemma_entries_map_update<V: View>(s: Seq<(String, V)>, i: int, p: (String, V))
    requires
        distinct_keys(s),
        0 <= i < s.len(),
        p.0@ == s[i].0@,
    ensures
        entries_map(s.update(i, p)) == entries_map(s).insert(p.0@, p.1@),
        distinct_keys(s.update(i, p)),
    decreases s.len(),
{
    let t = s.update(i, p);
    let d = s.drop_last();
    assert(forall|j: int| 0 <= j < d.len() ==> d[j] == s[j]);
    if i == s.len() - 1 {
        assert(t.drop_last() =~= d);
        assert(t.last() == p);
        assert(entries_map(t) =~= entries_map(s).insert(p.0@, p.1@));
    } else {
        assert(t.drop_last() =~= d.update(i, p));
        assert(t.last() == s.last());
        assert(distinct_keys(d));
        lemma_entries_map_update(d, i, p);
        assert(p.0@ != s[s.len() - 1].0@);
        assert(entries_map(t) =~= entries_map(s).insert(p.0@, p.1@));
    }
    assert(forall|j: int| 0 <= j < s.len() ==> (#[trigger] t[j]).0@ == s[j].0@);
}

/// Removing the entry at `i` is the map's remove at its key.
pub proof fn lemma_entries_map_remove<V: View>(s: Seq<(String, V)>, i: int)
    requires
        distinct_keys(s),
        0 <= i < s.len(),
    ensures
        entries_map(s.remove(i)) == entries_map(s).remove(s[i].0@),
        distinct_keys(s.remove(i)),
    decreases s.len(),
{
    let t = s.remove(i);
    let d = s.drop_last();
    let k = s[i].0@;
    assert(forall|j: int| 0 <= j < d.len() ==> d[j] == s[j]);
    assert(distinct_keys(d));
    assert(forall|j: int| 0 <= j < i ==> t[j] == s[j]);
    assert(forall|j: int| i <= j < t.len() ==> t[j] == s[j + 1]);
    if i == s.len() - 1 {
        assert(t =~= d);
        lemma_entries_map_contains(d, k);
        assert(!entries_map(d).contains_key(k));
        assert(entries_map(d) =~= entries_map(s).remove(k));
    } else {
        assert(t.drop_last() =~= d.remove(i));
        assert(t.last() == s.last());
        lemma_entries_map_remove(d, i);
        assert(k != s[s.len() - 1].0@);
        assert(entries_map(t) =~= entries_map(s).remove(k));
    }
    assert(distinct_keys(t));
}

/// With distinct keys, the map has exactly one key per entry.
pub proof fn lemma_entries_map_len<V: View>(s: Seq<(String, V)>)
    requires
        distinct_keys(s),
    ensures
        entries_map(s).dom().finite(),
        entries_map(s).dom().len() == s.len(),
    decreases s.len(),
{
    if s.len() == 0 {
        assert(entries_map(s).dom() =~= Set::<Seq<char>>::empty());
    } else {
        let d = s.drop_last();
        assert(forall|j: int| 0 <= j < d.len() ==> d[j] == s[j]);
        assert(distinct_keys(d));
        lemma_entries_map_len(d);
        lemma_entries_map_contains(d, s.last().0@);
        assert(!entries_map(d).contains_key(s.last().0@));
        assert(entries_map(s).dom() =~= entries_map(d).dom().insert(s.last().0@));
    }
}

/// Registry of the human player's sign for each game, keyed by game
/// identifier: written once at game creation, read on every move.
pub struct PlayerList {
    player_map: Vec<(String, char)>,
}

impl View for PlayerList {
    type V = Map<Seq<char>, char>;

    closed spec fn view(&self) -> Map<Seq<char>, char> {
        entries_map(self.player_map@)
    }
}

impl PlayerList {
    /// A registry with one entry per registered game.
    pub closed spec fn wf(&self) -> bool {
        distinct_keys(self.player_map@)
    }

    /// An empty registry.
    pub fn new() -> (r: PlayerList)
        ensures
            r@ == Map::<Seq<char>, char>::empty(),
            r.wf(),
    {
        PlayerList { player_map: Vec::new() }
    }

    fn find_index(&self, id: &String) -> (r: Option<usize>)
        ensures
            match r {
                Some(i) => (i as int) < self.player_map@.len() && self.player_map@[i as int].0@
                    == id@,
                None => forall|i: int|
                    0 <= i < self.player_map@.len() ==> (#[trigger] self.player_map@[i]).0@ != id@,
            },
    {
        let mut i: usize = 0;
        while i < self.player_map.len()
            invariant
                i <= self.player_map@.len(),
                forall|k: int| 0 <= k < i ==> (#[trigger] self.player_map@[k]).0@ != id@,
            decreases self.player_map@.len() - i,
        {
            if self.player_map[i].0 == *id {
                return Some(i);
            }
            i = i + 1;
        }
        None
    }

    /// The human player's sign for the given game, if registered.
    pub fn sign_of(&self, id: &String) -> (r: Option<char>)
        requires
            self.wf(),
        ensures
            match r {
                Some(c) => self@.contains_key(id@) && self@[id@] == c,
                None => !self@.contains_key(id@),
            },
    {
        match self.find_index(id) {
            Some(i) => {
                proof {
                    lemma_entries_map_index(self.player_map@, i as int);
                }
                Some(self.player_map[i].1)
            },
            None => {
                proof {
                    lemma_entries_map_contains(self.player_map@, id@);
                }
                None
            },
        }
    }

    /// Registers, or overwrites, the sign for a game identifier.
    pub fn insert(&mut self, id: String, sign: char)
        requires
            old(self).wf(),
        ensures
            final(self).wf(),
            final(self)@ == old(self)@.insert(id@, sign),
    {
        match self.find_index(&id) {
            Some(i) => {
                proof {
                    lemma_entries_map_update(self.player_map@, i as int, (id, sign));
                }
                self.player_map.set(i, (id, sign));
            },
            None => {
                proof {
                    let s = self.player_map@;
                    let p = (id, sign);
                    assert(s.push(p).drop_last() =~= s);
                    assert(s.push(p).last() == p);
                    assert(forall|j: int| 0 <= j < s.len() ==> (#[trigger] s.push(p)[j]) == s[j]);
                    assert(distinct_keys(s.push(p)));
                }
                self.player_map.push((id, sign));
            },
        }
    }

    /// Removes the sign entry for a game identifier and returns it.
    pub fn remove(&mut self, id: &String) -> (r: Option<char>)
        requires
            old(self).wf(),
        ensures
            final(self).wf(),
            match r {
                Some(c) => old(self)@.contains_key(id@) && old(self)@[id@] == c && final(self)@
                    == old(self)@.remove(id@),
                None => !old(self)@.contains_key(id@) && *final(self) == *old(self),
            },
    {
        match self.find_index(id) {
            Some(i) => {
                proof {
                    lemma_entries_map_index(self.player_map@, i as int);
                    lemma_entries_map_remove(self.player_map@, i as int);
                }
                let e = self.player_map.remove(i);
                Some(e.1)
            },
            None => {
                proof {
                    lemma_entries_map_contains(self.player_map@, id@);
                }
                None
            },
        }
    }
}

/// The active store of games, keyed by game identifier.
pub struct GameList {
    list: Vec<(String, Game)>,
}

impl View for GameList {
    type V = Map<Seq<char>, GameView>;

    closed spec fn view(&self) -> Map<Seq<char>, GameView> {
        entries_map(self.list@)
    }
}

impl GameList {
    /// A well-formed store: distinct keys, and every game keyed by its own
    /// identifier.
    pub closed spec fn wf(&self) -> bool {
        &&& distinct_keys(self.list@)
        &&& forall|i: int|
            0 <= i < self.list@.len() ==> (#[trigger] self.list@[i]).1.spec_id()
                == self.list@[i].0@
    }

    /// An empty store.
    pub fn new() -> (r: GameList)
        ensures
            r@ == Map::<Seq<char>, GameView>::empty(),
            r.wf(),
    {
        GameList { list: Vec::new() }
    }

    fn find_index(&self, id: &String) -> (r: Option<usize>)
        ensures
            match r {
                Some(i) => (i as int) < self.list@.len() && self.list@[i as int].0@ == id@,
                None => forall|i: int|
                    0 <= i < self.list@.len() ==> (#[trigger] self.list@[i]).0@ != id@,
            },
    {
        let mut i: usize = 0;
        while i < self.list.len()
            invariant
                i <= self.list@.len(),
                forall|k: int| 0 <= k < i ==> (#[trigger] self.list@[k]).0@ != id@,
            decreases self.list@.len() - i,
    {
            if self.list[i].0 == *id {
                return Some(i);
            }
            i = i + 1;
        }
        None
    }

    /// Stores a game under its own identifier, replacing any game stored
    /// under the same identifier.
    pub fn insert(&mut self, game: Game)
        requires
            old(self).wf(),
        ensures
            final(self).wf(),
            final(self)@ == old(self)@.insert(game.spec_id(), game@),
    {
        let key = game.get_id().clone();
        match self.find_index(&key) {
            Some(i) => {
                proof {
                    lemma_entries_map_update(self.list@, i as int, (key, game));
                }
                self.list.set(i, (key, game));
            },
            None => {
                proof {
                    let s = self.list@;
                    let p = (key, game);
                    assert(s.push(p).drop_last() =~= s);
                    assert(s.push(p).last() == p);
                    assert(forall|j: int| 0 <= j < s.len() ==> (#[trigger] s.push(p)[j]) == s[j]);
                    assert(distinct_keys(s.push(p)));
                }
                self.list.push((key, game));
            },
        }
    }

    /// The stored game with the given identifier, if any.
    pub fn get(&self, id: &String) -> (r: Option<&Game>)
        requires
            self.wf(),
        ensures
            match r {
                Some(g) => self@.contains_key(id@) && g@ == self@[id@] && g.spec_id() == id@,
                None => !self@.contains_key(id@),
            },
    {
        match self.find_index(id) {
            Some(i) => {
                proof {
                    lemma_entries_map_index(self.list@, i as int);
                }
                Some(&self.list[i].1)
            },
            None => {
                proof {
                    lemma_entries_map_contains(self.list@, id@);
                }
                None
            },
        }
    }

    /// Removes the game with the given identifier and returns it.
    pub fn remove(&mut self, id: &String) -> (r: Option<Game>)
        requires
            old(self).wf(),
        ensures
            final(self).wf(),
            match r {
                Some(g) => old(self)@.contains_key(id@) && g@ == old(self)@[id@] && g.spec_id()
                    == id@ && final(self)@ == old(self)@.remove(id@),
                None => !old(self)@.contains_key(id@) && *final(self) == *old(self),
            },
    {
        match self.find_index(id) {
            Some(i) => {
                proof {
                    lemma_entries_map_index(self.list@, i as int);
                    lemma_entries_map_remove(self.list@, i as int);
                }
                let e = self.list.remove(i);
                Some(e.1)
            },
            None => {
                proof {
                    lemma_entries_map_contains(self.list@, id@);
                }
                None
            },
        }
    }

    /// Snapshots of all stored games, one per stored identifier.
    pub fn games(&self) -> (r: Vec<Game>)
        requires
            self.wf(),
        ensures
            r@.len() == self@.dom().len(),
            forall|i: int|
                0 <= i < r@.len() ==> self@.contains_pair((#[trigger] r@[i]).spec_id(), r@[i]@),
            forall|i: int, j: int| #![trigger r@[i], r@[j]]
                0 <= i < j < r@.len() ==> r@[i].spec_id() != r@[j].spec_id(),
    {
        let mut r: Vec<Game> = Vec::new();
        let mut i: usize = 0;
        while i < self.list.len()
            invariant
                i <= self.list@.len(),
                r@.len() == i,
                forall|k: int| 0 <= k < i ==> (#[trigger] r@[k])@ == self.list@[k].1@,
                self.wf(),
            decreases self.list@.len() - i,
        {
            let g = self.list[i].1.clone();
            r.push(g);
            i = i + 1;
        }
        proof {
            lemma_entries_map_len(self.list@);
            assert forall|k: int| 0 <= k < r@.len() implies self@.contains_pair(
                (#[trigger] r@[k]).spec_id(),
                r@[k]@,
            ) by {
                lemma_entries_map_index(self.list@, k);
            };
        }
        r
    }
}

} // verus!
