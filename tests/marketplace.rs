use arcadis_engine::common::Principal;
use arcadis_engine::marketplace::{ContractMarketplace, Error, EscrowTransfer, GameItem, TradeHistory};

fn setup() -> (ContractMarketplace, Principal, Principal, Principal, Principal) {
    let admin = Principal::new(1);
    let token = Principal::new(2);
    let seller = Principal::new(3);
    let buyer = Principal::new(4);
    let mut m = ContractMarketplace::new();
    m.initialize(admin, token).unwrap();
    m.put_item(GameItem { item_id: String::from("sword"), owner: seller, metadata: vec![7u8; 64] });
    (m, admin, token, seller, buyer)
}

fn sword() -> String {
    String::from("sword")
}

#[test]
fn initialize_twice_fails() {
    let (mut m, admin, token, _, _) = setup();
    assert_eq!(m.initialize(admin, token), Err(Error::AlreadyInitialized));
}

#[test]
fn set_token_address_requires_admin() {
    let (mut m, admin, _, seller, _) = setup();
    assert_eq!(m.set_token_address(seller, Principal::new(9)), Err(Error::InvalidCaller));
    assert_eq!(m.internal_get_token(), Ok(Principal::new(2)));
    m.set_token_address(admin, Principal::new(9)).unwrap();
    assert_eq!(m.internal_get_token(), Ok(Principal::new(9)));
    let mut fresh = ContractMarketplace::new();
    assert_eq!(fresh.set_token_address(admin, Principal::new(9)), Err(Error::NotInitialized));
}

#[test]
fn trade_offer_and_execution() {
    let (mut m, _, _, seller, buyer) = setup();
    m.create_trade_offer(&sword(), seller, 50).unwrap();
    assert_eq!(m.create_trade_offer(&sword(), seller, 60), Err(Error::ItemAlreadyListed));

    let transfers = m.execute_trade(&sword(), buyer, 123).unwrap();
    assert_eq!(
        transfers,
        vec![
            EscrowTransfer::Deposit { from: buyer, amount: 50 },
            EscrowTransfer::Withdraw { to: seller, amount: 50 },
        ]
    );
    assert_eq!(m.get_item(&sword()).unwrap().owner, buyer);
    // the buyer's payment passes through escrow to the seller
    assert_eq!(m.escrow_balance(buyer), 0);
    assert_eq!(m.escrow_balance(seller), 0);
    let history = m.get_trade_history(&sword()).unwrap();
    assert_eq!(history, vec![TradeHistory { seller, buyer, price: 50, timestamp: 123 }]);
    assert_eq!(m.get_trade_history(&String::from("shield")).unwrap(), Vec::new());
    // the offer and the listing are gone, so the new owner may list again
    m.create_trade_offer(&sword(), buyer, 70).unwrap();
}

#[test]
fn trade_offer_errors() {
    let (mut m, _, _, seller, buyer) = setup();
    assert_eq!(m.create_trade_offer(&sword(), seller, 0), Err(Error::InvalidAmount));
    assert_eq!(m.create_trade_offer(&String::from("bow"), seller, 5), Err(Error::ItemNotFound));
    assert_eq!(m.create_trade_offer(&sword(), buyer, 5), Err(Error::NotItemOwner));
    assert_eq!(m.execute_trade(&sword(), buyer, 0), Err(Error::NotInitialized));
    m.create_trade_offer(&sword(), seller, 5).unwrap();
    assert_eq!(m.execute_trade(&sword(), seller, 0), Err(Error::InvalidCaller));
    assert_eq!(m.cancel_trade_offer(&sword(), buyer), Err(Error::NotItemOwner));
    assert!(matches!(m.get_trade_history(&sword()), Err(Error::NotInitialized)));
}

#[test]
fn cancel_trade_offer_clears_listing() {
    let (mut m, _, _, seller, buyer) = setup();
    m.create_trade_offer(&sword(), seller, 5).unwrap();
    m.cancel_trade_offer(&sword(), seller).unwrap();
    assert_eq!(m.execute_trade(&sword(), buyer, 0), Err(Error::NotInitialized));
    assert_eq!(m.cancel_trade_offer(&sword(), seller), Err(Error::NotInitialized));
    m.create_trade_offer(&sword(), seller, 6).unwrap();
}

#[test]
fn escrow_deposit_and_withdraw() {
    let (mut m, _, _, seller, buyer) = setup();
    assert_eq!(m.deposit_escrow(seller, 30), Ok(EscrowTransfer::Deposit { from: seller, amount: 30 }));
    assert_eq!(m.withdraw_escrow(seller, 31), Err(Error::InsufficientFunds));
    assert_eq!(m.withdraw_escrow(seller, 10), Ok(EscrowTransfer::Withdraw { to: seller, amount: 10 }));
    assert_eq!(m.escrow_balance(seller), 20);
    assert_eq!(m.deposit_escrow(seller, 0), Err(Error::InvalidAmount));
    assert_eq!(m.release_escrow(seller, buyer, 25), Err(Error::InsufficientFunds));
    assert_eq!(m.release_escrow(seller, buyer, 5), Ok(EscrowTransfer::Withdraw { to: buyer, amount: 5 }));
    assert_eq!(m.escrow_balance(seller), 15);
    assert_eq!(m.escrow_balance(buyer), 0);
    let mut fresh = ContractMarketplace::new();
    assert_eq!(fresh.deposit_escrow(seller, 5), Err(Error::NotInitialized));
}

#[test]
fn auction_lifecycle() {
    let (mut m, _, _, seller, buyer) = setup();
    assert_eq!(m.start_auction(&sword(), seller, 10, 100, 1000), Err(Error::ItemNotListed));
    m.create_trade_offer(&sword(), seller, 5).unwrap();
    assert_eq!(m.start_auction(&sword(), seller, 10, 0, 1000), Err(Error::InvalidEndTime));
    m.start_auction(&sword(), seller, 10, 100, 1000).unwrap();
    assert_eq!(m.start_auction(&sword(), seller, 10, 100, 1000), Err(Error::AlreadyInitialized));

    assert_eq!(m.place_bid(&sword(), seller, 20, 1010), Err(Error::InvalidCaller));
    assert_eq!(m.place_bid(&sword(), buyer, 10, 1010), Err(Error::BidTooLow));
    m.place_bid(&sword(), buyer, 11, 1010).unwrap();
    let other = Principal::new(8);
    assert_eq!(m.place_bid(&sword(), other, 11, 1020), Err(Error::BidTooLow));
    assert_eq!(m.place_bid(&sword(), other, 12, 1101), Err(Error::AuctionAlreadyEnded));
    m.place_bid(&sword(), other, 12, 1100).unwrap();

    assert_eq!(m.cancel_auction(&sword(), seller), Err(Error::BidAlreadyPlaced));
    assert_eq!(m.claim_bid(&sword(), other, 1100), Err(Error::AuctionStillRunning));
    assert_eq!(m.claim_bid(&sword(), buyer, 1101), Err(Error::InvalidCaller));
    m.claim_bid(&sword(), other, 1101).unwrap();
    assert_eq!(m.get_item(&sword()).unwrap().owner, other);
    assert_eq!(m.claim_bid(&sword(), other, 1101), Err(Error::AuctionNotActive));
}

#[test]
fn cancel_auction_without_bids() {
    let (mut m, _, _, seller, buyer) = setup();
    assert_eq!(m.cancel_auction(&sword(), seller), Err(Error::AuctionNotFound));
    m.create_trade_offer(&sword(), seller, 5).unwrap();
    m.start_auction(&sword(), seller, 10, 100, 0).unwrap();
    assert_eq!(m.cancel_auction(&sword(), buyer), Err(Error::InvalidCaller));
    m.cancel_auction(&sword(), seller).unwrap();
    assert_eq!(m.place_bid(&sword(), buyer, 50, 0), Err(Error::AuctionNotFound));
}
