use arcadis_engine::common::Principal;
use arcadis_engine::leaderboard::{GameLeaderboardContract, LeaderboardError};

#[test]
fn scores_are_kept_in_descending_order_with_ranks() {
    let mut c = GameLeaderboardContract::new();
    let t = String::from("spring");
    c.create_tournament(t.clone(), String::from("chess"), 0, 100);
    c.submit_score(&t, Principal::new(1), 50).unwrap();
    c.submit_score(&t, Principal::new(2), 70).unwrap();
    c.submit_score(&t, Principal::new(3), 50).unwrap();
    c.submit_score(&t, Principal::new(4), 10).unwrap();
    let board = c.get_leaderboard(&t).unwrap();
    let players: Vec<u64> = board.iter().map(|e| e.player_id.id).collect();
    let scores: Vec<u64> = board.iter().map(|e| e.total_score).collect();
    let ranks: Vec<u32> = board.iter().map(|e| e.rank).collect();
    assert_eq!(players, vec![2, 1, 3, 4]);
    assert_eq!(scores, vec![70, 50, 50, 10]);
    assert_eq!(ranks, vec![1, 2, 3, 4]);
    assert_eq!(c.get_tournament_results(&t).unwrap(), board);
}

#[test]
fn unknown_tournament_is_reported() {
    let mut c = GameLeaderboardContract::new();
    let t = String::from("none");
    assert_eq!(c.submit_score(&t, Principal::new(1), 5), Err(LeaderboardError::TournamentNotFound));
    assert_eq!(c.get_leaderboard(&t), Err(LeaderboardError::TournamentNotFound));
}

#[test]
fn creating_a_tournament_again_clears_it() {
    let mut c = GameLeaderboardContract::new();
    let t = String::from("cup");
    c.create_tournament(t.clone(), String::from("go"), 0, 1);
    c.submit_score(&t, Principal::new(1), 5).unwrap();
    c.create_tournament(t.clone(), String::from("go"), 0, 1);
    assert!(c.get_leaderboard(&t).unwrap().is_empty());
}
