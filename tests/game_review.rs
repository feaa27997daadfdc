use arcadis_engine::common::Principal;
use arcadis_engine::game_review::{GameReview, GameReviewError};

fn setup_test() -> (GameReview, Principal, Principal, Principal) {
    let admin = Principal::new(1);
    let user1 = Principal::new(2);
    let user2 = Principal::new(3);
    let mut client = GameReview::new();
    client.initialize(admin).unwrap();
    (client, admin, user1, user2)
}

fn create_test_comment(text: &str) -> Vec<u8> {
    text.as_bytes().to_vec()
}

#[test]
fn test_test_initialize() {
    let admin = Principal::new(1);
    let mut client = GameReview::new();
    assert!(client.initialize(admin).is_ok());
    assert_eq!(client.get_admin(), Ok(admin));
}

#[test]
fn test_test_initialize_already_initialized() {
    let (mut client, admin, _, _) = setup_test();
    assert_eq!(client.initialize(admin), Err(GameReviewError::AlreadyInitialized));
}

#[test]
fn test_test_change_admin() {
    let (mut client, admin, _, _) = setup_test();
    let new_admin = Principal::new(9);
    assert!(client.change_admin(admin, new_admin).is_ok());
    assert_eq!(client.get_admin(), Ok(new_admin));
}

#[test]
fn admin_of_uninitialized_contract_is_unauthorized() {
    let client = GameReview::new();
    assert_eq!(client.get_admin(), Err(GameReviewError::Unauthorized));
}

#[test]
fn test_add_review() {
    let (mut client, _, user1, _) = setup_test();
    let game_id = 1;
    let rating = 4;
    let comment = create_test_comment("Great game!");

    let result = client.add_review(user1, game_id, rating, comment.clone(), 0);
    assert!(result.is_ok());

    let review = client.get_review(game_id, user1).unwrap();
    assert_eq!(review.reviewer, user1);
    assert_eq!(review.rating, rating);
    assert_eq!(review.comment, comment);

    assert_eq!(client.get_game_review_count(game_id), 1);
    assert!(client.has_reviewed(user1, game_id));
}

#[test]
fn test_add_review_invalid_rating() {
    let (mut client, _, user1, _) = setup_test();
    let result = client.add_review(user1, 1, 6, create_test_comment("Great game!"), 0);
    assert_eq!(result, Err(GameReviewError::InvalidInput));
    let result = client.add_review(user1, 1, 0, create_test_comment("Great game!"), 0);
    assert_eq!(result, Err(GameReviewError::InvalidInput));
    assert_eq!(client.get_game_review_count(1), 0);
}

#[test]
fn test_add_review_duplicate() {
    let (mut client, _, user1, _) = setup_test();
    client.add_review(user1, 1, 4, create_test_comment("Great game!"), 0).unwrap();
    let result = client.add_review(user1, 1, 4, create_test_comment("Great game!"), 0);
    assert_eq!(result, Err(GameReviewError::UserHasReviewed));
    assert_eq!(client.get_game_review_count(1), 1);
}

#[test]
fn test_get_reviews() {
    let (mut client, _, user1, user2) = setup_test();
    let game_id = 1;
    client.add_review(user1, game_id, 5, create_test_comment("Great game!"), 0).unwrap();
    client.add_review(user2, game_id, 4, create_test_comment("Fun gameplay!"), 0).unwrap();

    let reviews = client.get_reviews(game_id, 0, 10);
    assert_eq!(reviews.len(), 2);
    assert_eq!(reviews[0].reviewer, user1);
    assert_eq!(reviews[0].rating, 5);
    assert_eq!(reviews[1].reviewer, user2);
    assert_eq!(reviews[1].rating, 4);
}

#[test]
fn get_reviews_pages() {
    let (mut client, _, user1, user2) = setup_test();
    client.add_review(user1, 3, 5, create_test_comment("a"), 0).unwrap();
    client.add_review(user2, 3, 2, create_test_comment("b"), 0).unwrap();
    let page = client.get_reviews(3, 1, 1);
    assert_eq!(page.len(), 1);
    assert_eq!(page[0].id, 2);
    assert!(client.get_reviews(3, 2, 5).is_empty());
    assert!(client.get_reviews(3, 0, 0).is_empty());
    assert!(client.get_reviews(4, 0, 10).is_empty());
}

#[test]
fn test_get_review_not_found() {
    let (client, _, user1, _) = setup_test();
    assert!(matches!(client.get_review(1, user1), Err(GameReviewError::ReviewNotFound)));
}

#[test]
fn test_game_rating_calculation() {
    let (mut client, _, user1, user2) = setup_test();
    let game_id = 1;
    let comment = create_test_comment("Test comment");
    client.add_review(user1, game_id, 5, comment.clone(), 0).unwrap();
    client.add_review(user2, game_id, 3, comment, 0).unwrap();
    assert_eq!(client.get_game_rating(game_id), 4);
}

#[test]
fn rating_after_deleting_a_review() {
    let (mut client, admin, user1, user2) = setup_test();
    client.add_review(user1, 1, 5, create_test_comment("x"), 0).unwrap();
    client.add_review(user2, 1, 3, create_test_comment("y"), 0).unwrap();
    assert_eq!(client.get_game_rating(1), 4);
    // review 2 is the rating-3 one: (8 - 3) / (2 - 1)
    client.delete_review(admin, 1, 2).unwrap();
    assert_eq!(client.get_game_rating(1), 5);
    assert_eq!(client.get_game_review_count(1), 1);
    client.delete_review(admin, 1, 1).unwrap();
    assert_eq!(client.get_game_rating(1), 0);
    assert_eq!(client.get_game_review_count(1), 0);
}

#[test]
fn running_average_uses_truncated_previous_average() {
    let (mut client, _, _, _) = setup_test();
    // (0*0+5)/1 = 5, (5*1+4)/2 = 4, (4*2+4)/3 = 4
    for (i, rating) in [5u32, 4, 4].iter().enumerate() {
        client.add_review(Principal::new(10 + i as u64), 8, *rating, Vec::new(), 0).unwrap();
    }
    assert_eq!(client.get_game_rating(8), 4);
    client.add_review(Principal::new(20), 8, 5, Vec::new(), 0).unwrap();
    // (4*3+5)/4 = 4
    assert_eq!(client.get_game_rating(8), 4);
}

#[test]
fn test_delete_review() {
    let (mut client, admin, user1, _) = setup_test();
    client.add_review(user1, 1, 4, create_test_comment("Great game!"), 0).unwrap();
    assert_eq!(client.get_game_review_count(1), 1);
    let result = client.delete_review(admin, 1, 1);
    assert!(result.is_ok());
    assert_eq!(client.get_game_review_count(1), 0);
    assert!(!client.has_reviewed(user1, 1));
}

#[test]
fn test_delete_nonexistent_review() {
    let (mut client, admin, _, _) = setup_test();
    assert_eq!(client.delete_review(admin, 1, 1), Err(GameReviewError::ReviewNotFound));
}

#[test]
fn delete_by_non_admin_is_unauthorized() {
    let (mut client, _, user1, _) = setup_test();
    client.add_review(user1, 1, 4, create_test_comment("Great game!"), 0).unwrap();
    assert_eq!(client.delete_review(user1, 1, 1), Err(GameReviewError::Unauthorized));
    assert!(client.has_reviewed(user1, 1));
    assert_eq!(client.get_game_review_count(1), 1);
}
