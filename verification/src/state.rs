use vstd::prelude::*;

use crate::config::{Config, ConfigView};
use crate::error::ContractError;
use crate::game::{Game, GameView};

verus! {

/// The persistent state owned by the engine: the singleton configuration
/// and the session collection, kept sorted by ascending session index.
pub struct Store {
    pub config: Option<Config>,
    pub games: Vec<Game>,
}

/// Mathematical image of a `Store`.
#[verifier::ext_equal]
pub ghost struct StoreView {
    pub config: Option<ConfigView>,
    pub games: Seq<GameView>,
}

impl View for Store {
    type V = StoreView;

    open spec fn view(&self) -> StoreView {
        StoreView {
            config: match self.config {
                Some(c) => Some(c@),
                None => None,
            },
            games: self.games@.map_values(|g: Game| g@),
        }
    }
}

/// Session records stand in strictly ascending index order.
pub open spec fn games_sorted(s: Seq<GameView>) -> bool {
    forall|i: int, j: int|
        0 <= i < j < s.len() ==> (#[trigger] s[i]).idx < (#[trigger] s[j]).idx
}

/// Some record carries the given index.
pub open spec fn has_idx(s: Seq<GameView>, idx: u128) -> bool {
    exists|i: int| 0 <= i < s.len() && (#[trigger] s[i]).idx == idx
}

/// The length of the longest leading run of records whose index lies
/// below `bound`. In a sorted sequence this is both where a record with
/// index `bound` stands, if one does, and where it would be inserted.
pub open spec fn insert_pos(s: Seq<GameView>, bound: int) -> int
    decreases s.len(),
{
    if s.len() == 0 {
        0
    } else if s[0].idx < bound {
        1 + insert_pos(s.drop_first(), bound)
    } else {
        0
    }
}

/// The record carrying the given index, in a sorted sequence that has one.
pub open spec fn game_at(s: Seq<GameView>, idx: u128) -> GameView {
    s[insert_pos(s, idx as int)]
}

/// The index the next created session receives: one past the highest
/// existing index, or zero if no session exists.
pub open spec fn next_idx_spec(s: Seq<GameView>) -> int {
    if s.len() == 0 {
        0
    } else {
        s.last().idx + 1
    }
}

/// The session collection after storing `g`: a record with the same index
/// is replaced, otherwise `g` enters at its sorted position.
pub open spec fn saved_games(s: Seq<GameView>, g: GameView) -> Seq<GameView> {
    if has_idx(s, g.idx) {
        s.update(insert_pos(s, g.idx as int), g)
    } else {
        s.insert(insert_pos(s, g.idx as int), g)
    }
}

/// The session collection after removing the record with the given index,
/// if one exists.
pub open spec fn removed_games(s: Seq<GameView>, idx: u128) -> Seq<GameView> {
    if has_idx(s, idx) {
        s.remove(insert_pos(s, idx as int))
    } else {
        s
    }
}

pub proof fn lemma_insert_pos_properties(s: Seq<GameView>, bound: int)
    ensures
        0 <= insert_pos(s, bound) <= s.len(),
        forall|j: int| 0 <= j < insert_pos(s, bound) ==> (#[trigger] s[j]).idx < bound,
        insert_pos(s, bound) < s.len() ==> s[insert_pos(s, bound)].idx >= bound,
    decreases s.len(),
{
    if s.len() > 0 && s[0].idx < bound {
        lemma_insert_pos_properties(s.drop_first(), bound);
        assert forall|j: int| 0 <= j < insert_pos(s, bound) implies (#[trigger] s[j]).idx
            < bound by {
            if j > 0 {
                assert(s.drop_first()[j - 1] == s[j]);
            }
        }
    }
}

/// In a sorted sequence that holds the index, `insert_pos` is exactly the
/// position of the record carrying it.
pub proof fn lemma_game_at(s: Seq<GameView>, idx: u128)
    requires
        games_sorted(s),
        has_idx(s, idx),
    ensures
        0 <= insert_pos(s, idx as int) < s.len(),
        s[insert_pos(s, idx as int)].idx == idx,
{
    lemma_insert_pos_properties(s, idx as int);
    let i = choose|i: int| 0 <= i < s.len() && (#[trigger] s[i]).idx == idx;
    let p = insert_pos(s, idx as int);
    if i < p {
        assert(s[i].idx < idx);
    } else if i > p {
        assert(s[p].idx < s[i].idx);
    }
}

impl Store {
    /// The store is well-formed: sessions sorted by ascending index, each
    /// session within its player cap, and any stored configuration valid.
    pub open spec fn wf(&self) -> bool {
        &&& games_sorted(self@.games)
        &&& (self@.config matches Some(c) ==> c.is_valid())
        &&& forall|i: int| 0 <= i < self@.games.len() ==> (#[trigger] self@.games[i]).wf()
    }

    /// A fresh, empty store.
    pub fn new() -> (s: Store)
        ensures
            s@.config is None,
            s@.games == Seq::<GameView>::empty(),
            s.wf(),
    {
        let s = Store { config: None, games: Vec::new() };
        proof {
            assert(s@.games =~= Seq::<GameView>::empty());
        }
        s
    }

    /// The stored configuration; `NotFound` if none was ever stored.
    pub fn load_config(&self) -> (r: Result<Config, ContractError>)
        ensures
            self@.config is None ==> r == Result::<Config, ContractError>::Err(
                ContractError::NotFound,
            ),
            self@.config matches Some(c) ==> (r matches Ok(cfg) && cfg@ == c),
    {
        match &self.config {
            None => Err(ContractError::NotFound),
            Some(c) => Ok(c.clone()),
        }
    }

    /// Stores a validated configuration, replacing any prior one.
    pub fn save_config(&mut self, c: Config)
        requires
            old(self).wf(),
            c@.is_valid(),
        ensures
            final(self).wf(),
            final(self)@.config == Some(c@),
            final(self)@.games == old(self)@.games,
    {
        self.config = Some(c);
    }
}

} // verus!
