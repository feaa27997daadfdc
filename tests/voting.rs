use arcadis_engine::common::Principal;
use arcadis_engine::voting::{Contract, Error};

fn setup_test() -> (Contract, Principal) {
    (Contract::new(), Principal::new(1))
}

fn format_game_name(num: u32) -> &'static str {
    match num {
        1 => "Game 1",
        2 => "Game 2",
        3 => "Game 3",
        4 => "Game 4",
        5 => "Game 5",
        _ => "Game",
    }
}

#[test]
fn test() {
    let contract = Contract::new();
    assert_eq!(contract.get_total_games(), 0);
}

#[test]
fn test_add_game() {
    let (mut contract, admin) = setup_test();
    let game_name = String::from("Test Game");
    contract.add_game(admin, game_name.clone()).unwrap();
    assert_eq!(contract.get_total_games(), 1);

    let (id, name, votes, game_creator) = contract.get_game_info(1).unwrap();
    assert_eq!(id, 1);
    assert_eq!(name, game_name);
    assert_eq!(votes, 0);
    assert_eq!(game_creator, admin);

    let creator2 = Principal::new(2);
    let game_name2 = String::from("Test Game 2");
    contract.add_game(creator2, game_name2.clone()).unwrap();
    assert_eq!(contract.get_total_games(), 2);

    let (id2, name2, votes2, game_creator2) = contract.get_game_info(2).unwrap();
    assert_eq!(id2, 2);
    assert_eq!(name2, game_name2);
    assert_eq!(votes2, 0);
    assert_eq!(game_creator2, creator2);
}

#[test]
fn add_game_with_empty_name_fails() {
    let (mut contract, admin) = setup_test();
    let result = contract.add_game(admin, String::new());
    assert_eq!(result, Err(Error::GameNameCannotBeEmpty));
    assert_eq!(Error::GameNameCannotBeEmpty.code(), 103);
    assert_eq!(contract.get_total_games(), 0);
}

#[test]
fn test_vote() {
    let (mut contract, admin) = setup_test();
    let voter = Principal::new(2);
    contract.add_game(admin, String::from("Test Game")).unwrap();
    contract.vote(voter, 1).unwrap();
    assert_eq!(contract.get_game_votes(1), 1);
    assert!(contract.has_voted(voter, 1));

    let voter2 = Principal::new(3);
    contract.vote(voter2, 1).unwrap();
    assert_eq!(contract.get_game_votes(1), 2);
    assert!(contract.has_voted(voter2, 1));
}

#[test]
fn voting_twice_fails_and_keeps_count() {
    let (mut contract, admin) = setup_test();
    let voter = Principal::new(2);
    contract.add_game(admin, String::from("Test Game")).unwrap();
    contract.vote(voter, 1).unwrap();
    assert_eq!(contract.vote(voter, 1), Err(Error::UserHasVoted));
    assert_eq!(Error::UserHasVoted.code(), 101);
    assert_eq!(contract.get_game_votes(1), 1);
}

#[test]
fn voting_for_unknown_game_fails() {
    let (mut contract, _) = setup_test();
    assert_eq!(contract.vote(Principal::new(2), 999), Err(Error::GameNotFound));
    assert_eq!(Error::GameNotFound.code(), 102);
    assert!(matches!(contract.get_game_info(999), Err(Error::GameNotFound)));
}

#[test]
fn test_has_voted() {
    let (mut contract, admin) = setup_test();
    let voter = Principal::new(2);
    let non_voter = Principal::new(3);
    contract.add_game(admin, String::from("Test Game")).unwrap();
    assert!(!contract.has_voted(voter, 1));
    assert!(!contract.has_voted(non_voter, 1));
    contract.vote(voter, 1).unwrap();
    assert!(contract.has_voted(voter, 1));
    assert!(!contract.has_voted(non_voter, 1));
}

#[test]
fn test_get_game_votes() {
    let (mut contract, admin) = setup_test();
    let voter1 = Principal::new(2);
    let voter2 = Principal::new(3);
    contract.add_game(admin, String::from("Test Game")).unwrap();
    assert_eq!(contract.get_game_votes(1), 0);
    contract.vote(voter1, 1).unwrap();
    assert_eq!(contract.get_game_votes(1), 1);
    contract.vote(voter2, 1).unwrap();
    assert_eq!(contract.get_game_votes(1), 2);
    assert_eq!(contract.get_game_votes(999), 0);
}

#[test]
fn test_get_total_games() {
    let (mut contract, admin) = setup_test();
    let creator2 = Principal::new(2);
    assert_eq!(contract.get_total_games(), 0);
    contract.add_game(admin, String::from("Game 1")).unwrap();
    assert_eq!(contract.get_total_games(), 1);
    contract.add_game(creator2, String::from("Game 2")).unwrap();
    assert_eq!(contract.get_total_games(), 2);
}

#[test]
fn test_get_game_info() {
    let (mut contract, admin) = setup_test();
    let game_name = String::from("Test Game");
    contract.add_game(admin, game_name.clone()).unwrap();
    let (id, name, votes, game_creator) = contract.get_game_info(1).unwrap();
    assert_eq!(id, 1);
    assert_eq!(name, game_name);
    assert_eq!(votes, 0);
    assert_eq!(game_creator, admin);
}

#[test]
fn test_multiple_games_voting() {
    let (mut contract, admin) = setup_test();
    let creator2 = Principal::new(2);
    let voter = Principal::new(3);
    contract.add_game(admin, String::from("Game 1")).unwrap();
    contract.add_game(creator2, String::from("Game 2")).unwrap();

    contract.vote(voter, 1).unwrap();
    assert_eq!(contract.get_game_votes(1), 1);
    assert!(contract.has_voted(voter, 1));
    assert!(!contract.has_voted(voter, 2));

    contract.vote(voter, 2).unwrap();
    assert_eq!(contract.get_game_votes(2), 1);
    assert!(contract.has_voted(voter, 2));
}

#[test]
fn test_vote_sequence() {
    let (mut contract, admin) = setup_test();
    contract.add_game(admin, String::from("Test Game")).unwrap();
    let voters: Vec<Principal> = (0..5).map(|i| Principal::new(100 + i)).collect();
    for (i, voter) in voters.iter().enumerate() {
        contract.vote(*voter, 1).unwrap();
        assert_eq!(contract.get_game_votes(1), (i + 1) as u32);
        assert!(contract.has_voted(*voter, 1));
    }
    assert_eq!(contract.get_game_votes(1), 5);
    for voter in voters.iter() {
        assert!(contract.has_voted(*voter, 1));
    }
}

#[test]
fn test_game_creation_sequence() {
    let (mut contract, admin) = setup_test();
    for i in 0..5u32 {
        contract.add_game(admin, String::from(format_game_name(i + 1))).unwrap();
        let (id, _, votes, creator) = contract.get_game_info(i + 1).unwrap();
        assert_eq!(id, i + 1);
        assert_eq!(votes, 0);
        assert_eq!(creator, admin);
    }
    assert_eq!(contract.get_total_games(), 5);
}
