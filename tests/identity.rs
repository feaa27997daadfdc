use arcadis_engine::common::Principal;
use arcadis_engine::identity::{AccessLevel, Error, IdentityManager, PlayerIdentityAuth};

const MAX_USERNAME_LENGTH: u32 = 50;
const MAX_TITLE_LENGTH: u32 = 100;

fn create_test_contracts() -> PlayerIdentityAuth {
    PlayerIdentityAuth::new()
}

fn setup_profile_args() -> (Principal, String, Vec<u8>) {
    (Principal::new(2), String::from("player1"), vec![0u8; 32])
}

fn setup_achievement_args() -> (String, String, String) {
    (String::from("First Win"), String::from("Won the first game"), String::from("game123"))
}

#[test]
fn test_initialization() {
    let mut client = create_test_contracts();
    let admin = Principal::new(1);
    client.initialize(admin);
    assert_eq!(client.admin.expect("Admin not set"), admin, "Admin address mismatch");
    assert_eq!(client.player_counter, 0, "Player counter should be 0");
}

#[test]
fn test_create_profile_success() {
    let mut client = create_test_contracts();
    let (player_id, username, credentials_hash) = setup_profile_args();
    let admin = Principal::new(1);
    client.initialize(admin);

    let profile_id = client.create_profile(player_id, username.clone(), credentials_hash.clone(), 0).unwrap();
    assert_eq!(profile_id, 1, "Profile ID should be greater than 0");

    let profile = client.get_player_info(profile_id).unwrap();
    assert_eq!(profile.player_id, player_id, "Player ID mismatch");
    assert_eq!(profile.username, username, "Username mismatch");
    assert_eq!(profile.credentials_hash, credentials_hash, "Credentials hash mismatch");
    assert_eq!(profile.access_level, AccessLevel::Player, "Access level should be Player");
    assert_eq!(profile.achievements.len(), 1, "Should have one initial achievement");
    assert_eq!(
        profile.achievements[0].title,
        String::from("First Achievement"),
        "Initial achievement title mismatch"
    );
}

#[test]
fn test_create_profile_invalid_username() {
    let mut client = create_test_contracts();
    let admin = Principal::new(1);
    let (player_id, _, credentials_hash) = setup_profile_args();
    let invalid_username = "a".repeat((MAX_USERNAME_LENGTH + 1) as usize);
    client.initialize(admin);
    let result = client.create_profile(player_id, invalid_username, credentials_hash, 0);
    assert_eq!(result, Err(Error::InvalidUsername), "Expected InvalidUsername error");
}

#[test]
fn username_at_the_limit_is_accepted() {
    let mut client = create_test_contracts();
    client.initialize(Principal::new(1));
    let name = "a".repeat(MAX_USERNAME_LENGTH as usize);
    assert_eq!(client.create_profile(Principal::new(2), name, vec![0u8; 32], 0), Ok(1));
}

#[test]
fn test_create_profile_username_taken() {
    let mut client = create_test_contracts();
    let admin = Principal::new(1);
    let (player_id1, username, credentials_hash) = setup_profile_args();
    let player_id2 = Principal::new(3);
    client.initialize(admin);
    client.create_profile(player_id1, username.clone(), credentials_hash.clone(), 0).unwrap();
    let result = client.create_profile(player_id2, username, credentials_hash, 0);
    assert_eq!(result, Err(Error::UsernameTaken), "Expected UsernameTaken error");
    assert_eq!(client.player_counter, 1);
}

#[test]
fn test_create_profile_not_initialized() {
    let mut client = create_test_contracts();
    let (player_id, username, credentials_hash) = setup_profile_args();
    let result = client.create_profile(player_id, username, credentials_hash, 0);
    assert_eq!(result, Err(Error::NotInitialized), "Expected NotInitialized error");
}

#[test]
fn test_add_achievement_success() {
    let mut client = create_test_contracts();
    let admin = Principal::new(1);
    let (player_id, username, credentials_hash) = setup_profile_args();
    let (title, description, game_id) = setup_achievement_args();
    client.initialize(admin);
    let profile_id = client.create_profile(player_id, username, credentials_hash, 0).unwrap();

    let result =
        client.add_achievement(admin, profile_id, title.clone(), description.clone(), game_id.clone(), 0);
    assert!(result.is_ok(), "Add achievement failed: {:?}", result);

    let profile = IdentityManager::get_player_profile(&client, profile_id).expect("Profile not found");
    assert_eq!(profile.achievements.len(), 2, "Should have two achievements");
    let achievement = &profile.achievements[1];
    assert_eq!(achievement.title, title, "Achievement title mismatch");
    assert_eq!(achievement.description, description, "Achievement description mismatch");
    assert_eq!(achievement.game_id, game_id, "Achievement game_id mismatch");
    assert_eq!(achievement.timestamp, 0, "Achievement timestamp mismatch");
}

#[test]
fn test_add_achievement_unauthorized() {
    let mut client = create_test_contracts();
    let admin = Principal::new(1);
    let non_admin = Principal::new(5);
    let (player_id, username, credentials_hash) = setup_profile_args();
    let (title, description, game_id) = setup_achievement_args();
    client.initialize(admin);
    let profile_id = client.create_profile(player_id, username, credentials_hash, 0).unwrap();
    let result = client.add_achievement(non_admin, profile_id, title, description, game_id, 0);
    assert_eq!(result, Err(Error::Unauthorized), "Expected Unauthorized error");
}

#[test]
fn test_add_achievement_invalid_data() {
    let mut client = create_test_contracts();
    let admin = Principal::new(1);
    let (player_id, username, credentials_hash) = setup_profile_args();
    let invalid_title = "a".repeat((MAX_TITLE_LENGTH + 1) as usize);
    client.initialize(admin);
    let profile_id = client.create_profile(player_id, username, credentials_hash, 0).unwrap();

    let result = client.add_achievement(
        admin,
        profile_id,
        invalid_title,
        String::from("desc"),
        String::from("game123"),
        0,
    );
    assert_eq!(result, Err(Error::InvalidAchievement), "Expected InvalidAchievement error");

    let profile = IdentityManager::get_player_profile(&client, profile_id).expect("Profile not found");
    assert_eq!(profile.achievements.len(), 1, "Should still have only initial achievement");
}

#[test]
fn test_add_achievement_player_not_found() {
    let mut client = create_test_contracts();
    let admin = Principal::new(1);
    let (title, description, game_id) = setup_achievement_args();
    client.initialize(admin);
    let non_existent_player_id = 999;
    let result = client.add_achievement(admin, non_existent_player_id, title, description, game_id, 0);
    assert_eq!(result, Err(Error::PlayerNotFound), "Expected PlayerNotFound error");
}

#[test]
fn test_set_access_level_success() {
    let mut client = create_test_contracts();
    let admin = Principal::new(1);
    let (player_id, username, credentials_hash) = setup_profile_args();
    client.initialize(admin);
    let profile_id = client.create_profile(player_id, username, credentials_hash, 0).unwrap();
    client.set_access_level(admin, profile_id, AccessLevel::Moderator).unwrap();
    let profile = IdentityManager::get_player_profile(&client, profile_id).expect("Profile not found");
    assert_eq!(profile.access_level, AccessLevel::Moderator, "Access level should be Moderator");
}

#[test]
fn test_set_access_level_unauthorized() {
    let mut client = create_test_contracts();
    let admin = Principal::new(1);
    let non_admin = Principal::new(5);
    let (player_id, username, credentials_hash) = setup_profile_args();
    client.initialize(admin);
    let profile_id = client.create_profile(player_id, username, credentials_hash, 0).unwrap();
    let result = client.set_access_level(non_admin, profile_id, AccessLevel::Moderator);
    assert_eq!(result, Err(Error::Unauthorized), "Expected Unauthorized error");
    let profile = IdentityManager::get_player_profile(&client, profile_id).expect("Profile not found");
    assert_eq!(profile.access_level, AccessLevel::Player, "Access level should remain Player");
}

#[test]
fn test_set_access_level_player_not_found() {
    let mut client = create_test_contracts();
    let admin = Principal::new(1);
    client.initialize(admin);
    let result = client.set_access_level(admin, 999, AccessLevel::Moderator);
    assert_eq!(result, Err(Error::PlayerNotFound), "Expected PlayerNotFound error");
}

#[test]
fn test_verify_credentials_success() {
    let mut client = create_test_contracts();
    let admin = Principal::new(1);
    let (player_id, username, credentials_hash) = setup_profile_args();
    client.initialize(admin);
    let profile_id = client.create_profile(player_id, username, credentials_hash.clone(), 0).unwrap();
    let result = client.verify_credentials(profile_id, &credentials_hash);
    assert_eq!(result, Ok(true), "Credentials should verify successfully");
}

#[test]
fn test_verify_credentials_incorrect_hash() {
    let mut client = create_test_contracts();
    let admin = Principal::new(1);
    let (player_id, username, credentials_hash) = setup_profile_args();
    let wrong_hash = vec![1u8; 32];
    client.initialize(admin);
    let profile_id = client.create_profile(player_id, username, credentials_hash, 0).unwrap();
    let result = client.verify_credentials(profile_id, &wrong_hash);
    assert_eq!(result, Ok(false), "Credentials should not verify with incorrect hash");
}

#[test]
fn test_verify_credentials_player_not_found() {
    let mut client = create_test_contracts();
    let admin = Principal::new(1);
    let credentials_hash = vec![0u8; 32];
    client.initialize(admin);
    let result = client.verify_credentials(999, &credentials_hash);
    assert_eq!(result, Err(Error::PlayerNotFound), "Expected PlayerNotFound error");
}

#[test]
fn test_get_player_info_success() {
    let mut client = create_test_contracts();
    let admin = Principal::new(1);
    let (player_id, username, credentials_hash) = setup_profile_args();
    client.initialize(admin);
    let profile_id = client.create_profile(player_id, username.clone(), credentials_hash.clone(), 0).unwrap();
    let profile = client.get_player_info(profile_id).unwrap();
    assert_eq!(profile.player_id, player_id, "Player ID mismatch");
    assert_eq!(profile.username, username, "Username mismatch");
    assert_eq!(profile.credentials_hash, credentials_hash, "Credentials hash mismatch");
    assert_eq!(profile.access_level, AccessLevel::Player, "Access level should be Player");
    assert_eq!(profile.achievements.len(), 1, "Should have one initial achievement");
    let stored = IdentityManager::get_player_profile(&client, profile_id).expect("Profile not found");
    assert_eq!(stored.username, profile.username, "Stored profile mismatch");
}

#[test]
fn test_get_player_info_not_found() {
    let mut client = create_test_contracts();
    let admin = Principal::new(1);
    client.initialize(admin);
    assert!(matches!(client.get_player_info(999), Err(Error::PlayerNotFound)), "Expected PlayerNotFound error");
}

#[test]
fn all_profiles_lists_numbers_in_order() {
    let mut client = create_test_contracts();
    client.initialize(Principal::new(1));
    client.create_profile(Principal::new(2), String::from("a"), vec![0u8; 32], 0).unwrap();
    client.create_profile(Principal::new(3), String::from("b"), vec![0u8; 32], 0).unwrap();
    assert_eq!(IdentityManager::get_all_profiles(&client), vec![1, 2]);
}
