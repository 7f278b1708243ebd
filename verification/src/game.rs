use vstd::prelude::*;

use crate::error::ContractError;
use crate::state::{
    game_at, has_idx, insert_pos, lemma_game_at, lemma_insert_pos_properties, next_idx_spec,
    removed_games, saved_games, Store,
};
use crate::types::{Coin, CoinView, Timestamp};

verus! {

/// One game session: a fixed entry fee, a scheduled start, the accounts
/// that joined, and the winner once the session was closed.
pub struct Game {
    pub idx: u128,
    pub entry_fee: Coin,
    pub start_time: Timestamp,
    pub creator: String,
    pub max_players: u8,
    pub players: Vec<String>,
    pub winner: Option<String>,
}

/// Mathematical image of a `Game`.
#[verifier::ext_equal]
pub ghost struct GameView {
    pub idx: u128,
    pub entry_fee: CoinView,
    pub start_time: Timestamp,
    pub creator: Seq<char>,
    pub max_players: u8,
    pub players: Seq<Seq<char>>,
    pub winner: Option<Seq<char>>,
}

impl View for Game {
    type V = GameView;

    open spec fn view(&self) -> GameView {
        GameView {
            idx: self.idx,
            entry_fee: self.entry_fee@,
            start_time: self.start_time,
            creator: self.creator@,
            max_players: self.max_players,
            players: self.players.deep_view(),
            winner: self.winner.deep_view(),
        }
    }
}

impl GameView {
    /// The session never holds more players than its cap.
    pub open spec fn wf(&self) -> bool {
        self.players.len() <= self.max_players
    }

    /// The session has started: the current time lies strictly past the
    /// scheduled start, at whole-second granularity.
    pub open spec fn started(&self, now: Timestamp) -> bool {
        now.spec_seconds() > self.start_time.spec_seconds()
    }
}

fn clone_players(v: &Vec<String>) -> (res: Vec<String>)
    ensures
        res.deep_view() == v.deep_view(),
{
    let mut res: Vec<String> = Vec::new();
    let mut i: usize = 0;
    while i < v.len()
        invariant
            i <= v.len(),
            res@.len() == i,
            forall|j: int| 0 <= j < i ==> (#[trigger] res@[j])@ == v@[j]@,
        decreases v.len() - i,
    {
        res.push(v[i].clone());
        i = i + 1;
    }
    proof {
        assert forall|j: int| 0 <= j < v@.len() implies res.deep_view()[j] == v.deep_view()[j] by {
            assert(res.deep_view()[j] == res@[j]@);
            assert(v.deep_view()[j] == v@[j]@);
        }
        assert(res.deep_view() =~= v.deep_view());
    }
    res
}

impl Clone for Game {
    fn clone(&self) -> (res: Self)
        ensures
            res@ == self@,
    {
        let winner = match &self.winner {
            Some(w) => Some(w.clone()),
            None => None,
        };
        let res = Game {
            idx: self.idx,
            entry_fee: self.entry_fee.clone(),
            start_time: self.start_time,
            creator: self.creator.clone(),
            max_players: self.max_players,
            players: clone_players(&self.players),
            winner,
        };
        proof {
            assert(res@ =~= self@);
        }
        res
    }
}

impl Game {
    /// The index a session created now receives: one past the highest
    /// stored index, or zero when no session exists.
    fn next_idx(store: &Store) -> (r: u128)
        requires
            store.wf(),
            next_idx_spec(store@.games) <= u128::MAX,
        ensures
            r == next_idx_spec(store@.games),
    {
        let n = store.games.len();
        if n == 0 {
            0
        } else {
            store.games[n - 1].idx + 1
        }
    }

    /// A fresh session at the next free index, with no players and no
    /// winner yet.
    pub fn new(
        store: &Store,
        entry_fee: Coin,
        start_time: Timestamp,
        creator: String,
        max_players: u8,
    ) -> (g: Game)
        requires
            store.wf(),
            next_idx_spec(store@.games) <= u128::MAX,
        ensures
            g@.idx == next_idx_spec(store@.games),
            g@.entry_fee == entry_fee@,
            g@.start_time == start_time,
            g@.creator == creator@,
            g@.max_players == max_players,
            g@.players == Seq::<Seq<char>>::empty(),
            g@.winner is None,
    {
        let g = Game {
            idx: Self::next_idx(store),
            entry_fee,
            start_time,
            creator,
            max_players,
            players: Vec::new(),
            winner: None,
        };
        proof {
            assert(g@.players =~= Seq::<Seq<char>>::empty());
        }
        g
    }

    /// The stored session at the given index; `NotFound` if none carries it.
    pub fn load(store: &Store, idx: u128) -> (r: Result<Game, ContractError>)
        requires
            store.wf(),
        ensures
            !has_idx(store@.games, idx) ==> r == Result::<Game, ContractError>::Err(
                ContractError::NotFound,
            ),
            has_idx(store@.games, idx) ==> (r matches Ok(g) && g@ == game_at(store@.games, idx)),
    {
        let n = store.games.len();
        let mut i: usize = 0;
        while i < n
            invariant
                store.wf(),
                n == store.games.len(),
                i <= n,
                forall|j: int| 0 <= j < i ==> (#[trigger] store@.games[j]).idx != idx,
            decreases n - i,
        {
            if store.games[i].idx == idx {
                let g = store.games[i].clone();
                proof {
                    assert(has_idx(store@.games, idx));
                    lemma_game_at(store@.games, idx);
                    let p = insert_pos(store@.games, idx as int);
                    if p != i as int {
                        assert(store@.games[p].idx != store@.games[i as int].idx);
                    }
                }
                return Ok(g);
            }
            i = i + 1;
        }
        Err(ContractError::NotFound)
    }

    /// Writes this session into the store: a record with the same index is
    /// replaced, otherwise the record enters at its sorted position.
    pub fn save(&self, store: &mut Store)
        requires
            old(store).wf(),
            self@.wf(),
        ensures
            final(store).wf(),
            final(store)@.config == old(store)@.config,
            final(store)@.games == saved_games(old(store)@.games, self@),
    {
        let ghost s = store@.games;
        let n = store.games.len();
        let mut i: usize = 0;
        while i < n && store.games[i].idx < self.idx
            invariant
                store.wf(),
                s == store@.games,
                n == store.games.len(),
                i <= n,
                forall|j: int| 0 <= j < i ==> (#[trigger] s[j]).idx < self@.idx,
            decreases n - i,
        {
            i = i + 1;
        }
        proof {
            lemma_insert_pos_properties(s, self@.idx as int);
            assert(insert_pos(s, self@.idx as int) == i as int);
        }
        if i < n && store.games[i].idx == self.idx {
            proof {
                assert(has_idx(s, self@.idx));
            }
            store.games[i] = self.clone();
            proof {
                assert(store@.games =~= s.update(i as int, self@));
                assert(store@.games == saved_games(s, self@));
            }
        } else {
            proof {
                if i < n {
                    assert(s[i as int].idx > self@.idx);
                }
                assert forall|k: int| 0 <= k < s.len() implies (#[trigger] s[k]).idx
                    != self@.idx by {
                    if k >= i as int {
                        assert(s[i as int].idx <= s[k].idx);
                    }
                }
                assert(!has_idx(s, self@.idx));
            }
            store.games.insert(i, self.clone());
            proof {
                let t = s.insert(i as int, self@);
                s.insert_ensures(i as int, self@);
                assert(store@.games =~= t);
                assert(store@.games == saved_games(s, self@));
                assert forall|a: int, b: int| 0 <= a < b < t.len() implies (#[trigger] t[a]).idx < (
                #[trigger] t[b]).idx by {
                    if a < i as int {
                        assert(t[a] == s[a]);
                    }
                    if b < i as int {
                        assert(t[b] == s[b]);
                    }
                    if a > i as int {
                        assert(t[a] == s[a - 1]);
                    }
                    if b > i as int {
                        assert(t[b] == s[b - 1]);
                    }
                }
            }
        }
    }

    /// Removes this session's record from the store, if it is there.
    pub fn remove(&self, store: &mut Store)
        requires
            old(store).wf(),
        ensures
            final(store).wf(),
            final(store)@.config == old(store)@.config,
            final(store)@.games == removed_games(old(store)@.games, self@.idx),
    {
        let ghost s = store@.games;
        let n = store.games.len();
        let mut i: usize = 0;
        while i < n
            invariant
                store.wf(),
                s == store@.games,
                store@ == old(store)@,
                n == store.games.len(),
                i <= n,
                forall|j: int| 0 <= j < i ==> (#[trigger] s[j]).idx != self@.idx,
            decreases n - i,
        {
            if store.games[i].idx == self.idx {
                proof {
                    assert(has_idx(s, self@.idx));
                    lemma_game_at(s, self@.idx);
                    let p = insert_pos(s, self@.idx as int);
                    if p != i as int {
                        assert(s[p].idx != s[i as int].idx);
                    }
                }
                let ghost ge = store.games@;
                store.games.remove(i);
                proof {
                    ge.remove_ensures(i as int);
                    s.remove_ensures(i as int);
                    assert forall|j: int| 0 <= j < store@.games.len() implies store@.games[j]
                        == s.remove(i as int)[j] by {
                        if j < i as int {
                            assert(store.games@[j] == ge[j]);
                        } else {
                            assert(store.games@[j] == ge[j + 1]);
                        }
                    }
                    assert(store@.games =~= s.remove(i as int));
                    assert(store@.games == removed_games(s, self@.idx));
                }
                return ;
            }
            i = i + 1;
        }
        proof {
            assert(!has_idx(s, self@.idx));
        }
    }

    /// The session holds exactly as many players as its cap allows.
    fn is_full(&self) -> (r: bool)
        ensures
            r == (self@.players.len() == self@.max_players),
    {
        self.players.len() == self.max_players as usize
    }

    /// Admits a joiner who pays exactly the session's entry fee before the
    /// session starts and while a seat is free. Checked in that order:
    /// a late join fails `GameStarted`, a full session fails `GameFull`,
    /// a payment differing in denomination or amount fails
    /// `InvalidEntryFee`. A failed join leaves the session unchanged.
    pub fn join(&mut self, joiner: String, entry_fee: Coin, time: Timestamp) -> (r: Result<
        (),
        ContractError,
    >)
        ensures
            r is Err ==> final(self)@ == old(self)@,
            old(self)@.started(time) ==> r == Result::<(), ContractError>::Err(
                ContractError::GameStarted,
            ),
            !old(self)@.started(time) && old(self)@.players.len() == old(self)@.max_players ==> r
                == Result::<(), ContractError>::Err(ContractError::GameFull),
            !old(self)@.started(time) && old(self)@.players.len() != old(self)@.max_players && old(
                self,
            )@.entry_fee != entry_fee@ ==> r == Result::<(), ContractError>::Err(
                ContractError::InvalidEntryFee,
            ),
            !old(self)@.started(time) && old(self)@.players.len() != old(self)@.max_players && old(
                self,
            )@.entry_fee == entry_fee@ ==> r is Ok && final(self)@ == (GameView {
                players: old(self)@.players.push(joiner@),
                ..old(self)@
            }),
    {
        if time.seconds() > self.start_time.seconds() {
            return Err(ContractError::GameStarted);
        }
        if self.is_full() {
            return Err(ContractError::GameFull);
        }
        if !(self.entry_fee == entry_fee) {
            return Err(ContractError::InvalidEntryFee);
        }
        let ghost jv = joiner@;
        self.players.push(joiner);
        proof {
            assert(self@ =~= (GameView { players: old(self)@.players.push(jv), ..old(self)@ }));
        }
        Ok(())
    }

    /// Closes the session once its start time has been reached: records
    /// the winner and returns the pot, the entry fee amount multiplied by
    /// the number of joined players, in the entry fee's denomination.
    /// Before the start time it fails `GameNotStarted` and changes nothing.
    pub fn close(&mut self, winner: String, time: Timestamp) -> (r: Result<Coin, ContractError>)
        requires
            old(self)@.entry_fee.amount * old(self)@.players.len() <= u128::MAX,
        ensures
            time.spec_seconds() < old(self)@.start_time.spec_seconds() ==> r == Result::<
                Coin,
                ContractError,
            >::Err(ContractError::GameNotStarted) && final(self)@ == old(self)@,
            time.spec_seconds() >= old(self)@.start_time.spec_seconds() ==> (r matches Ok(pot)
                && pot@.denom == old(self)@.entry_fee.denom && pot@.amount == old(
                self,
            )@.entry_fee.amount * old(self)@.players.len() && final(self)@ == (GameView {
                winner: Some(winner@),
                ..old(self)@
            })),
    {
        if time.seconds() < self.start_time.seconds() {
            return Err(ContractError::GameNotStarted);
        }
        let amount = self.entry_fee.amount * (self.players.len() as u128);
        let denom = self.entry_fee.denom.clone();
        let ghost wv = winner@;
        self.winner = Some(winner);
        proof {
            assert(self@ =~= (GameView { winner: Some(wv), ..old(self)@ }));
        }
        Ok(Coin { denom, amount })
    }
}

} // verus!
