//! Tournament leaderboards: entries kept in descending score order, ranked
//! from 1.
use vstd::prelude::*;
use crate::common::Principal;
use crate::store::KeyedStore;

verus! {

/// One player's place on a leaderboard.
#[derive(Clone, Copy, PartialEq, Eq, Structural, Debug)]
pub struct LeaderboardEntry {
    pub player_id: Principal,
    pub total_score: u64,
    pub rank: u32,
}

impl View for LeaderboardEntry {
    type V = LeaderboardEntry;

    open spec fn view(&self) -> LeaderboardEntry {
        *self
    }
}

/// A tournament and its leaderboard.
pub struct Tournament {
    pub id: String,
    pub game_id: String,
    pub start_time: u64,
    pub end_time: u64,
    pub entries: Vec<LeaderboardEntry>,
}

pub struct TournamentModel {
    pub id: Seq<char>,
    pub game_id: Seq<char>,
    pub start_time: u64,
    pub end_time: u64,
    pub entries: Seq<LeaderboardEntry>,
}

impl View for Tournament {
    type V = TournamentModel;

    open spec fn view(&self) -> TournamentModel {
        TournamentModel {
            id: self.id@,
            game_id: self.game_id@,
            start_time: self.start_time,
            end_time: self.end_time,
            entries: self.entries@,
        }
    }
}

/// Errors of the leaderboard contract.
#[derive(Clone, Copy, PartialEq, Eq, Structural, Debug)]
pub enum LeaderboardError {
    TournamentNotFound,
}

/// Scores never increase along the leaderboard.
pub open spec fn sorted_by_score(s: Seq<LeaderboardEntry>) -> bool {
    forall|i: int, j: int| 0 <= i < j < s.len() ==> s[i].total_score >= s[j].total_score
}

/// Where a new score goes: before the first entry with a lower score, or
/// at the end.
pub open spec fn insert_position(s: Seq<LeaderboardEntry>, score: u64) -> int
    decreases s.len(),
{
    if s.len() == 0 {
        0
    } else if score > s[0].total_score {
        0
    } else {
        1 + insert_position(s.drop_first(), score)
    }
}

/// The entries with ranks renumbered `1, 2, ...` by position.
pub open spec fn ranked(s: Seq<LeaderboardEntry>) -> Seq<LeaderboardEntry> {
    Seq::new(s.len(), |i: int| LeaderboardEntry { rank: (i + 1) as u32, ..s[i] })
}

proof fn lemma_insert_position(s: Seq<LeaderboardEntry>, score: u64)
    ensures
        0 <= insert_position(s, score) <= s.len(),
        forall|j: int| 0 <= j < insert_position(s, score) ==> score <= s[j].total_score,
        insert_position(s, score) < s.len() ==> score > s[insert_position(s, score)].total_score,
    decreases s.len(),
{
    if s.len() > 0 && score <= s[0].total_score {
        lemma_insert_position(s.drop_first(), score);
        assert forall|j: int| 0 <= j < insert_position(s, score) implies score <= s[j].total_score by {
            if j > 0 {
                assert(s[j] == s.drop_first()[j - 1]);
            }
        }
    }
}

/// The leaderboard contract.
pub struct GameLeaderboardContract {
    pub tournaments: KeyedStore<String, Tournament>,
}

impl GameLeaderboardContract {
    pub open spec fn wf(&self) -> bool {
        self.tournaments.wf()
    }

    pub fn new() -> (r: GameLeaderboardContract)
        ensures
            r.wf(),
            r.tournaments@ == Map::<Seq<char>, TournamentModel>::empty(),
    {
        GameLeaderboardContract { tournaments: KeyedStore::new() }
    }

    /// Sets up a tournament with an empty leaderboard, replacing any
    /// tournament with the same id.
    pub fn create_tournament(
        &mut self,
        tournament_id: String,
        game_id: String,
        start_time: u64,
        end_time: u64,
    )
        requires
            old(self).wf(),
        ensures
            final(self).wf(),
            final(self).tournaments@ == old(self).tournaments@.insert(
                tournament_id@,
                TournamentModel {
                    id: tournament_id@,
                    game_id: game_id@,
                    start_time,
                    end_time,
                    entries: Seq::empty(),
                },
            ),
    {
        let key = tournament_id.clone();
        let tournament = Tournament {
            id: tournament_id,
            game_id,
            start_time,
            end_time,
            entries: Vec::new(),
        };
        self.tournaments.set(key, tournament);
    }

    /// Adds a score to a tournament's leaderboard at its place in
    /// descending score order (after equal scores) and renumbers the ranks.
    pub fn submit_score(&mut self, tournament_id: &String, player_id: Principal, score: u64) -> (r:
        Result<LeaderboardEntry, LeaderboardError>)
        requires
            old(self).wf(),
            old(self).tournaments@.contains_key(tournament_id@) ==> old(
                self,
            ).tournaments@[tournament_id@].entries.len() < u32::MAX,
        ensures
            final(self).wf(),
            !old(self).tournaments@.contains_key(tournament_id@) ==> r == Err::<
                LeaderboardEntry,
                _,
            >(LeaderboardError::TournamentNotFound) && *final(self) == *old(self),
            old(self).tournaments@.contains_key(tournament_id@) ==> {
                let t = old(self).tournaments@[tournament_id@];
                let entry = LeaderboardEntry { player_id, total_score: score, rank: 0 };
                let entries = ranked(t.entries.insert(insert_position(t.entries, score), entry));
                &&& r == Ok::<LeaderboardEntry, LeaderboardError>(entry)
                &&& final(self).tournaments@ == old(self).tournaments@.insert(
                    tournament_id@,
                    TournamentModel { entries, ..t },
                )
                &&& sorted_by_score(t.entries) ==> sorted_by_score(entries)
            },
    {
        if !self.tournaments.contains(tournament_id) {
            return Err(LeaderboardError::TournamentNotFound);
        }
        let mut tournament = match self.tournaments.take(tournament_id) {
            Some(t) => t,
            None => {
                return Err(LeaderboardError::TournamentNotFound);
            },
        };
        let ghost t = tournament@;
        let new_entry = LeaderboardEntry { player_id, total_score: score, rank: 0 };
        let mut pos: usize = 0;
        while pos < tournament.entries.len() && score <= tournament.entries[pos].total_score
            invariant
                tournament@ == t,
                0 <= pos <= t.entries.len(),
                forall|j: int| 0 <= j < pos ==> score <= t.entries[j].total_score,
            decreases t.entries.len() - pos,
        {
            pos = pos + 1;
        }
        proof {
            lemma_insert_position(t.entries, score);
            let p = insert_position(t.entries, score);
            if pos < t.entries.len() {
                assert(score > t.entries[pos as int].total_score);
                if p < pos {
                    assert(score <= t.entries[p].total_score);
                }
            }
            if p < t.entries.len() && pos > p {
                assert(score <= t.entries[p].total_score);
            }
            assert(pos == p);
        }
        tournament.entries.insert(pos, new_entry);
        let ghost inserted = tournament.entries@;
        assert(inserted == t.entries.insert(pos as int, new_entry));
        let mut i: usize = 0;
        while i < tournament.entries.len()
            invariant
                tournament.entries@.len() == inserted.len() < u32::MAX + 1,
                0 <= i <= inserted.len(),
                forall|j: int|
                    0 <= j < i ==> tournament.entries@[j] == ranked(inserted)[j],
                forall|j: int| i <= j < inserted.len() ==> tournament.entries@[j] == inserted[j],
                tournament.id@ == t.id,
                tournament.game_id@ == t.game_id,
                tournament.start_time == t.start_time,
                tournament.end_time == t.end_time,
            decreases inserted.len() - i,
        {
            let e = tournament.entries[i];
            tournament.entries.set(i, LeaderboardEntry { rank: (i + 1) as u32, ..e });
            i = i + 1;
        }
        assert(tournament.entries@ =~= ranked(inserted));
        let ghost entries = tournament.entries@;
        proof {
            if sorted_by_score(t.entries) {
                let p = pos as int;
                assert forall|a: int, b: int| 0 <= a < b < entries.len() implies entries[a].total_score
                    >= entries[b].total_score by {
                    assert(entries[a].total_score == inserted[a].total_score);
                    assert(entries[b].total_score == inserted[b].total_score);
                    if a < p && b < p {
                    } else if a < p && b == p {
                    } else if a < p {
                        assert(inserted[b] == t.entries[b - 1]);
                    } else if a == p {
                        assert(inserted[b] == t.entries[b - 1]);
                        assert(score > t.entries[p].total_score);
                    } else {
                        assert(inserted[a] == t.entries[a - 1]);
                        assert(inserted[b] == t.entries[b - 1]);
                    }
                }
            }
        }
        self.tournaments.set(tournament_id.clone(), tournament);
        Ok(new_entry)
    }

    /// The leaderboard of a tournament, best score first.
    pub fn get_leaderboard(&self, tournament_id: &String) -> (r: Result<
        Vec<LeaderboardEntry>,
        LeaderboardError,
    >)
        requires
            self.wf(),
        ensures
            match r {
                Ok(v) => self.tournaments@.contains_key(tournament_id@) && v@
                    == self.tournaments@[tournament_id@].entries,
                Err(e) => e == LeaderboardError::TournamentNotFound && !self.tournaments@.contains_key(
                    tournament_id@,
                ),
            },
    {
        match self.tournaments.get(tournament_id) {
            Some(t) => {
                let mut r: Vec<LeaderboardEntry> = Vec::new();
                let mut i: usize = 0;
                while i < t.entries.len()
                    invariant
                        0 <= i <= t.entries@.len(),
                        r@ == t.entries@.subrange(0, i as int),
                    decreases t.entries@.len() - i,
                {
                    r.push(t.entries[i]);
                    assert(r@ =~= t.entries@.subrange(0, i + 1));
                    i = i + 1;
                }
                assert(r@ =~= t.entries@);
                Ok(r)
            },
            None => Err(LeaderboardError::TournamentNotFound),
        }
    }

    /// The final rankings of a tournament.
    pub fn get_tournament_results(&self, tournament_id: &String) -> (r: Result<
        Vec<LeaderboardEntry>,
        LeaderboardError,
    >)
        requires
            self.wf(),
        ensures
            match r {
                Ok(v) => self.tournaments@.contains_key(tournament_id@) && v@
                    == self.tournaments@[tournament_id@].entries,
                Err(e) => e == LeaderboardError::TournamentNotFound && !self.tournaments@.contains_key(
                    tournament_id@,
                ),
            },
    {
        self.get_leaderboard(tournament_id)
    }
}

} // verus!
