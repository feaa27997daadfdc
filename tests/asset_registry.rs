use arcadis_engine::asset_registry::{Attribute, GameAssetContract, GameAssetError};
use arcadis_engine::common::Principal;

fn setup_test() -> (GameAssetContract, Principal, Principal, Principal) {
    let admin = Principal::new(1);
    let owner1 = Principal::new(2);
    let owner2 = Principal::new(3);
    let mut contract = GameAssetContract::new();
    contract.initialize(admin).unwrap();
    (contract, admin, owner1, owner2)
}

fn create_test_byte_string(text: &str) -> Vec<u8> {
    text.as_bytes().to_vec()
}

fn create_test_asset_id(id: u32) -> Vec<u8> {
    let mut bytes = [0u8; 32];
    bytes[0..4].copy_from_slice(&id.to_be_bytes());
    bytes.to_vec()
}

fn attribute(key: &str, value: &str) -> Attribute {
    Attribute { key: create_test_byte_string(key), value: create_test_byte_string(value) }
}

fn create_test_attributes() -> Vec<Attribute> {
    vec![attribute("attack", "15"), attribute("defense", "10"), attribute("rarity", "epic")]
}

fn attribute_value(attributes: &[Attribute], key: &str) -> Option<Vec<u8>> {
    attributes.iter().find(|a| a.key == key.as_bytes()).map(|a| a.value.clone())
}

#[test]
fn test_initialize() {
    let admin = Principal::new(1);
    let mut contract = GameAssetContract::new();
    let result = contract.initialize(admin);
    assert!(result.is_ok());
    assert_eq!(contract.get_admin(), Ok(admin));
}

#[test]
fn test_initialize_already_initialized() {
    let (mut contract, admin, _, _) = setup_test();
    let result = contract.initialize(admin);
    assert_eq!(result, Err(GameAssetError::AlreadyInitialized));
}

#[test]
fn test_change_admin() {
    let (mut contract, admin, _, _) = setup_test();
    let new_admin = Principal::new(9);
    let result = contract.change_admin(admin, new_admin);
    assert!(result.is_ok());
    assert_eq!(contract.get_admin(), Ok(new_admin));
}

#[test]
fn change_admin_by_non_admin_is_unauthorized() {
    let (mut contract, admin, owner1, _) = setup_test();
    assert_eq!(contract.change_admin(owner1, owner1), Err(GameAssetError::Unauthorized));
    assert_eq!(contract.get_admin(), Ok(admin));
}

#[test]
fn get_admin_before_initialize() {
    let contract = GameAssetContract::new();
    assert_eq!(contract.get_admin(), Err(GameAssetError::AlreadyInitialized));
}

#[test]
fn test_register_asset() {
    let (mut contract, admin, owner1, _) = setup_test();
    let asset_id = create_test_asset_id(1);
    let name = create_test_byte_string("Excalibur Sword");
    let item_type = create_test_byte_string("weapon");
    let attributes = create_test_attributes();

    let result =
        contract.register_asset(admin, owner1, asset_id.clone(), name.clone(), item_type.clone(), attributes);
    assert!(result.is_ok());

    assert!(contract.asset_exists(&asset_id));
    assert_eq!(contract.get_asset_count(), 1);

    let asset = contract.get_asset(&asset_id).unwrap();
    assert_eq!(asset.id, asset_id);
    assert_eq!(asset.owner, owner1);
    assert_eq!(asset.metadata.name, name);
    assert_eq!(asset.metadata.item_type, item_type);

    let user_assets = contract.get_user_assets(owner1);
    assert_eq!(user_assets.len(), 1);
    assert_eq!(user_assets[0].id, asset_id);
}

#[test]
fn test_register_duplicate_asset() {
    let (mut contract, admin, owner1, _) = setup_test();
    let asset_id = create_test_asset_id(1);
    let name = create_test_byte_string("Excalibur Sword");
    let item_type = create_test_byte_string("weapon");

    contract
        .register_asset(admin, owner1, asset_id.clone(), name.clone(), item_type.clone(), create_test_attributes())
        .unwrap();

    let result =
        contract.register_asset(admin, owner1, asset_id.clone(), name, item_type, create_test_attributes());
    assert_eq!(result, Err(GameAssetError::AssetAlreadyRegistered));
}

#[test]
fn register_by_non_admin_is_unauthorized() {
    let (mut contract, _, owner1, _) = setup_test();
    let result = contract.register_asset(
        owner1,
        owner1,
        create_test_asset_id(1),
        create_test_byte_string("Excalibur Sword"),
        create_test_byte_string("weapon"),
        create_test_attributes(),
    );
    assert_eq!(result, Err(GameAssetError::Unauthorized));
    assert_eq!(contract.get_asset_count(), 0);
}

#[test]
fn register_with_empty_name_is_invalid() {
    let (mut contract, admin, owner1, _) = setup_test();
    let result = contract.register_asset(
        admin,
        owner1,
        create_test_asset_id(1),
        Vec::new(),
        create_test_byte_string("weapon"),
        create_test_attributes(),
    );
    assert_eq!(result, Err(GameAssetError::InvalidInput));
    let result = contract.register_asset(
        admin,
        owner1,
        create_test_asset_id(1),
        create_test_byte_string("Excalibur Sword"),
        Vec::new(),
        create_test_attributes(),
    );
    assert_eq!(result, Err(GameAssetError::InvalidInput));
    assert!(!contract.asset_exists(&create_test_asset_id(1)));
}

#[test]
fn test_transfer_asset() {
    let (mut contract, admin, owner1, owner2) = setup_test();
    let asset_id = create_test_asset_id(1);
    let reason = create_test_byte_string("gift");
    contract
        .register_asset(
            admin,
            owner1,
            asset_id.clone(),
            create_test_byte_string("Excalibur Sword"),
            create_test_byte_string("weapon"),
            create_test_attributes(),
        )
        .unwrap();

    let result = contract.transfer_asset(owner1, owner2, &asset_id, reason.clone(), 0);
    assert!(result.is_ok());

    let asset = contract.get_asset(&asset_id).unwrap();
    assert_eq!(asset.owner, owner2);

    let history = contract.get_asset_history(&asset_id).unwrap();
    assert_eq!(history.len(), 1);
    assert_eq!(history[0].previous_owner, owner1);
    assert_eq!(history[0].reason, reason);

    assert_eq!(contract.get_user_assets(owner1).len(), 0);
    assert_eq!(contract.get_user_assets(owner2).len(), 1);
}

#[test]
fn transfer_by_non_owner_changes_nothing() {
    let (mut contract, admin, owner1, owner2) = setup_test();
    let asset_id = create_test_asset_id(1);
    contract
        .register_asset(
            admin,
            owner1,
            asset_id.clone(),
            create_test_byte_string("Excalibur Sword"),
            create_test_byte_string("weapon"),
            create_test_attributes(),
        )
        .unwrap();

    let result = contract.transfer_asset(owner2, owner2, &asset_id, create_test_byte_string("gift"), 7);
    assert_eq!(result, Err(GameAssetError::Unauthorized));
    assert_eq!(contract.get_asset(&asset_id).unwrap().owner, owner1);
    assert_eq!(contract.get_asset_history(&asset_id).unwrap().len(), 0);
    assert_eq!(contract.get_user_assets(owner1).len(), 1);
    assert_eq!(contract.get_user_assets(owner2).len(), 0);
}

#[test]
fn transfer_of_unknown_asset_is_not_found() {
    let (mut contract, _, owner1, owner2) = setup_test();
    let result = contract.transfer_asset(owner1, owner2, &create_test_asset_id(5), Vec::new(), 0);
    assert_eq!(result, Err(GameAssetError::AssetNotFound));
}

#[test]
fn transfer_history_records_time_and_order() {
    let (mut contract, admin, owner1, owner2) = setup_test();
    let asset_id = create_test_asset_id(1);
    contract
        .register_asset(
            admin,
            owner1,
            asset_id.clone(),
            create_test_byte_string("Shield"),
            create_test_byte_string("armor"),
            Vec::new(),
        )
        .unwrap();
    contract.transfer_asset(owner1, owner2, &asset_id, create_test_byte_string("sale"), 100).unwrap();
    contract.transfer_asset(owner2, owner1, &asset_id, create_test_byte_string("return"), 200).unwrap();
    let history = contract.get_asset_history(&asset_id).unwrap();
    assert_eq!(history.len(), 2);
    assert_eq!(history[0].previous_owner, owner1);
    assert_eq!(history[0].timestamp, 100);
    assert_eq!(history[1].previous_owner, owner2);
    assert_eq!(history[1].timestamp, 200);
    assert_eq!(history[1].reason, b"return".to_vec());
    assert_eq!(contract.get_user_assets(owner1).len(), 1);
    assert_eq!(contract.get_user_assets(owner2).len(), 0);
}

#[test]
fn test_update_metadata() {
    let (mut contract, admin, owner1, _) = setup_test();
    let asset_id = create_test_asset_id(1);
    contract
        .register_asset(
            admin,
            owner1,
            asset_id.clone(),
            create_test_byte_string("Excalibur Sword"),
            create_test_byte_string("weapon"),
            create_test_attributes(),
        )
        .unwrap();

    let new_name = create_test_byte_string("Legendary Excalibur");
    let new_type = create_test_byte_string("legendary_weapon");
    let new_attributes =
        vec![attribute("attack", "25"), attribute("defense", "10"), attribute("rarity", "epic")];

    let result = contract.update_metadata(owner1, &asset_id, new_name.clone(), new_type.clone(), new_attributes);
    assert!(result.is_ok());

    let asset = contract.get_asset(&asset_id).unwrap();
    assert_eq!(asset.metadata.name, new_name);
    assert_eq!(asset.metadata.item_type, new_type);
    assert_eq!(
        attribute_value(&asset.metadata.attributes, "attack").unwrap(),
        create_test_byte_string("25")
    );

    let metadata = contract.get_asset_metadata(&asset_id).unwrap();
    assert_eq!(metadata.name, new_name);
    assert_eq!(metadata.item_type, new_type);
}

#[test]
fn test_admin_update_metadata() {
    let (mut contract, admin, owner1, _) = setup_test();
    let asset_id = create_test_asset_id(1);
    contract
        .register_asset(
            admin,
            owner1,
            asset_id.clone(),
            create_test_byte_string("Excalibur Sword"),
            create_test_byte_string("weapon"),
            create_test_attributes(),
        )
        .unwrap();

    let new_name = create_test_byte_string("Admin Modified Excalibur");
    let new_type = create_test_byte_string("admin_modified");
    let mut new_attributes = create_test_attributes();
    new_attributes.push(attribute("admin_note", "balanced item"));

    let result = contract.update_metadata(admin, &asset_id, new_name.clone(), new_type.clone(), new_attributes);
    assert!(result.is_ok());

    let asset = contract.get_asset(&asset_id).unwrap();
    assert_eq!(asset.metadata.name, new_name);
    assert_eq!(asset.metadata.item_type, new_type);
}

#[test]
fn update_metadata_by_stranger_is_unauthorized() {
    let (mut contract, admin, owner1, owner2) = setup_test();
    let asset_id = create_test_asset_id(1);
    contract
        .register_asset(
            admin,
            owner1,
            asset_id.clone(),
            create_test_byte_string("Excalibur Sword"),
            create_test_byte_string("weapon"),
            create_test_attributes(),
        )
        .unwrap();
    let result = contract.update_metadata(owner2, &asset_id, b"x".to_vec(), b"y".to_vec(), Vec::new());
    assert_eq!(result, Err(GameAssetError::Unauthorized));
    assert_eq!(contract.get_asset_metadata(&asset_id).unwrap().name, b"Excalibur Sword".to_vec());
    let result = contract.update_metadata(owner1, &create_test_asset_id(2), b"x".to_vec(), b"y".to_vec(), Vec::new());
    assert_eq!(result, Err(GameAssetError::AssetNotFound));
}

#[test]
fn test_get_all_assets() {
    let (mut contract, admin, owner1, _) = setup_test();
    for i in 1..=5u32 {
        let name = create_test_byte_string(&format!("Item {}", i));
        contract
            .register_asset(
                admin,
                owner1,
                create_test_asset_id(i),
                name,
                create_test_byte_string("collectible"),
                create_test_attributes(),
            )
            .unwrap();
    }

    assert_eq!(contract.get_asset_count(), 5);

    let first_page = contract.get_all_assets(0, 3);
    assert_eq!(first_page.len(), 3);

    let second_page = contract.get_all_assets(3, 3);
    assert_eq!(second_page.len(), 2);

    let all_assets = contract.get_all_assets(0, 10);
    assert_eq!(all_assets.len(), 5);
}

#[test]
fn pages_follow_registration_order() {
    let (mut contract, admin, owner1, _) = setup_test();
    for i in 1..=5u32 {
        contract
            .register_asset(admin, owner1, create_test_asset_id(i), b"n".to_vec(), b"t".to_vec(), Vec::new())
            .unwrap();
    }
    let page = contract.get_all_assets(1, 2);
    assert_eq!(page, vec![create_test_asset_id(2), create_test_asset_id(3)]);
    assert!(contract.get_all_assets(5, 3).is_empty());
    assert!(contract.get_all_assets(9, 3).is_empty());
    assert!(contract.get_all_assets(0, 0).is_empty());
    assert_eq!(contract.get_all_assets(4, u32::MAX), vec![create_test_asset_id(5)]);
}

#[test]
fn test_get_asset_not_found() {
    let (contract, _, _, _) = setup_test();
    let nonexistent_id = create_test_asset_id(999);
    let result = contract.get_asset_info(&nonexistent_id);
    assert!(matches!(result, Err(GameAssetError::AssetNotFound)));
    assert!(!contract.asset_exists(&nonexistent_id));
}

#[test]
fn test_get_user_assets() {
    let (mut contract, admin, owner1, _) = setup_test();
    for i in 1..=3u32 {
        let name = create_test_byte_string(&format!("Item {}", i));
        contract
            .register_asset(
                admin,
                owner1,
                create_test_asset_id(i),
                name,
                create_test_byte_string("collectible"),
                create_test_attributes(),
            )
            .unwrap();
    }

    let user_assets = contract.get_user_assets(owner1);
    assert_eq!(user_assets.len(), 3);
    for asset in user_assets.iter() {
        assert_eq!(asset.owner, owner1);
    }
}

#[test]
fn scenario_register_then_gift() {
    let (mut contract, admin, _, _) = setup_test();
    let o1 = Principal::new(11);
    let o2 = Principal::new(12);
    let a1 = b"A1".to_vec();
    contract.register_asset(admin, o1, a1.clone(), b"Sword".to_vec(), b"weapon".to_vec(), Vec::new()).unwrap();
    assert_eq!(contract.get_asset_count(), 1);
    contract.transfer_asset(o1, o2, &a1, b"gift".to_vec(), 0).unwrap();
    assert_eq!(contract.get_asset_history(&a1).unwrap().len(), 1);
    assert_eq!(contract.get_user_assets(o1).len(), 0);
    assert_eq!(contract.get_user_assets(o2).len(), 1);
}
