//! Game voting: anyone may add a game, and each principal may vote for a
//! given game at most once.
use vstd::prelude::*;
use crate::common::Principal;
use crate::store::KeyedStore;

verus! {

/// Errors of the voting contract.
#[derive(Clone, Copy, PartialEq, Eq, Structural, Debug)]
pub enum Error {
    UserHasVoted,
    GameNotFound,
    GameNameCannotBeEmpty,
}

impl Error {
    /// The numeric code under which the host reports this error.
    pub fn code(&self) -> (r: u32)
        ensures
            r == match *self {
                Error::UserHasVoted => 101u32,
                Error::GameNotFound => 102u32,
                Error::GameNameCannotBeEmpty => 103u32,
            },
    {
        match self {
            Error::UserHasVoted => 101,
            Error::GameNotFound => 102,
            Error::GameNameCannotBeEmpty => 103,
        }
    }
}

/// A game that can be voted for.
pub struct Game {
    pub id: u32,
    pub name: String,
    pub votes: u32,
    pub creator: Principal,
}

pub struct GameModel {
    pub id: u32,
    pub name: Seq<char>,
    pub votes: u32,
    pub creator: Principal,
}

impl View for Game {
    type V = GameModel;

    open spec fn view(&self) -> GameModel {
        GameModel { id: self.id, name: self.name@, votes: self.votes, creator: self.creator }
    }
}

/// A game's vote count is the number of distinct principals that voted
/// for it: each vote adds a new voter, and a second vote by the same
/// principal is refused.
pub proof fn lemma_votes_are_distinct_voters(c: &Contract, game_id: u32)
    requires
        c.wf(),
        c.games@.contains_key(game_id),
    ensures
        c.voters(game_id).finite(),
        c.games@[game_id].votes == c.voters(game_id).len(),
{
}

/// The voting contract.
pub struct Contract {
    pub total_games: u32,
    pub games: KeyedStore<u32, Game>,
    pub has_voted: KeyedStore<(Principal, u32), bool>,
}

impl Contract {
    /// The principals that have voted for `game_id`.
    pub open spec fn voters(&self, game_id: u32) -> Set<Principal> {
        Set::new(|p: Principal| self.has_voted@.contains_key((p, game_id)))
    }

    /// Games are numbered `1..=total_games`; every vote is for an existing
    /// game; and each game's vote count is the number of its voters.
    pub open spec fn wf(&self) -> bool {
        &&& self.games.wf()
        &&& self.has_voted.wf()
        &&& forall|g: u32| #[trigger] self.games@.contains_key(g) <==> 1 <= g <= self.total_games
        &&& forall|g: u32| #[trigger] self.games@.contains_key(g) ==> self.games@[g].id == g
        &&& forall|k: (Principal, u32)| #[trigger]
            self.has_voted@.contains_key(k) ==> self.games@.contains_key(k.1)
                && self.has_voted@[k] == true
        &&& forall|g: u32| #[trigger]
            self.games@.contains_key(g) ==> self.voters(g).finite() && self.games@[g].votes
                == self.voters(g).len()
    }

    /// A contract with no games.
    pub fn new() -> (r: Contract)
        ensures
            r.wf(),
            r.total_games == 0,
    {
        Contract { total_games: 0, games: KeyedStore::new(), has_voted: KeyedStore::new() }
    }

    /// Adds a game named `name` under the next id, with no votes.
    pub fn add_game(&mut self, creator: Principal, name: String) -> (r: Result<(), Error>)
        requires
            old(self).wf(),
            old(self).total_games < u32::MAX,
        ensures
            final(self).wf(),
            r is Err ==> *final(self) == *old(self),
            r == Err::<(), _>(Error::GameNameCannotBeEmpty) <==> name@.len() == 0,
            r is Ok <==> name@.len() > 0,
            r is Ok ==> {
                let id = (old(self).total_games + 1) as u32;
                &&& final(self).total_games == id
                &&& final(self).games@ == old(self).games@.insert(
                    id,
                    GameModel { id, name: name@, votes: 0, creator },
                )
                &&& final(self).has_voted@ == old(self).has_voted@
                &&& final(self).voters(id) == Set::<Principal>::empty()
            },
    {
        if name.as_str().is_empty() {
            return Err(Error::GameNameCannotBeEmpty);
        }
        let game_id = self.total_games + 1;
        let ghost old_self = *self;
        let game = Game { id: game_id, name, votes: 0, creator };
        self.games.set(game_id, game);
        self.total_games = game_id;
        proof {
            assert(self.voters(game_id) =~= Set::<Principal>::empty());
            assert forall|g: u32| #[trigger]
                self.games@.contains_key(g) implies self.voters(g).finite() && self.games@[g].votes
                == self.voters(g).len() by {
                if g != game_id {
                    assert(self.voters(g) == old_self.voters(g));
                }
            }
        }
        Ok(())
    }

    /// Records `voter`'s vote for `game_id`.
    pub fn vote(&mut self, voter: Principal, game_id: u32) -> (r: Result<(), Error>)
        requires
            old(self).wf(),
            old(self).games@.contains_key(game_id) ==> old(self).games@[game_id].votes < u32::MAX,
        ensures
            final(self).wf(),
            r is Err ==> *final(self) == *old(self),
            r == Err::<(), _>(Error::GameNotFound) <==> !old(self).games@.contains_key(game_id),
            r == Err::<(), _>(Error::UserHasVoted) <==> old(self).games@.contains_key(game_id)
                && old(self).voters(game_id).contains(voter),
            r is Ok <==> old(self).games@.contains_key(game_id) && !old(self).voters(game_id).contains(
                voter,
            ),
            r is Ok ==> {
                let g = old(self).games@[game_id];
                &&& final(self).games@ == old(self).games@.insert(
                    game_id,
                    GameModel { votes: (g.votes + 1) as u32, ..g },
                )
                &&& final(self).voters(game_id) == old(self).voters(game_id).insert(voter)
                &&& final(self).total_games == old(self).total_games
            },
    {
        if !self.games.contains(&game_id) {
            return Err(Error::GameNotFound);
        }
        if self.has_voted(voter, game_id) {
            return Err(Error::UserHasVoted);
        }
        let ghost old_self = *self;
        let mut game = match self.games.take(&game_id) {
            Some(g) => g,
            None => {
                return Err(Error::GameNotFound);
            },
        };
        game.votes = game.votes + 1;
        self.games.set(game_id, game);
        self.has_voted.set((voter, game_id), true);
        proof {
            assert(self.games@ =~= old_self.games@.insert(
                game_id,
                GameModel { votes: (old_self.games@[game_id].votes + 1) as u32, ..old_self.games@[game_id] },
            ));
            assert(self.voters(game_id) =~= old_self.voters(game_id).insert(voter));
            assert forall|g: u32| #[trigger]
                self.games@.contains_key(g) implies self.voters(g).finite() && self.games@[g].votes
                == self.voters(g).len() by {
                if g != game_id {
                    assert(self.voters(g) =~= old_self.voters(g));
                }
            }
        }
        Ok(())
    }

    /// Whether `user` has voted for `game_id`.
    pub fn has_voted(&self, user: Principal, game_id: u32) -> (r: bool)
        requires
            self.wf(),
        ensures
            r == self.voters(game_id).contains(user),
    {
        match self.has_voted.get(&(user, game_id)) {
            Some(v) => *v,
            None => false,
        }
    }

    /// The votes that `game_id` has received (zero for an unknown game).
    pub fn get_game_votes(&self, game_id: u32) -> (r: u32)
        requires
            self.wf(),
        ensures
            self.games@.contains_key(game_id) ==> r == self.games@[game_id].votes,
            !self.games@.contains_key(game_id) ==> r == 0,
    {
        match self.games.get(&game_id) {
            Some(g) => g.votes,
            None => 0,
        }
    }

    pub fn get_total_games(&self) -> (r: u32)
        ensures
            r == self.total_games,
    {
        self.total_games
    }

    /// Id, name, vote count and creator of `game_id`.
    pub fn get_game_info(&self, game_id: u32) -> (r: Result<(u32, String, u32, Principal), Error>)
        requires
            self.wf(),
        ensures
            match r {
                Ok(t) => {
                    let g = self.games@[game_id];
                    &&& self.games@.contains_key(game_id)
                    &&& t.0 == g.id && t.1@ == g.name && t.2 == g.votes && t.3 == g.creator
                },
                Err(e) => e == Error::GameNotFound && !self.games@.contains_key(game_id),
            },
    {
        match self.games.get(&game_id) {
            Some(g) => Ok((g.id, g.name.clone(), g.votes, g.creator)),
            None => Err(Error::GameNotFound),
        }
    }
}

} // verus!
