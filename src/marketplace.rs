//! Marketplace for game items: fixed-price trade offers settled through an
//! escrow, and auctions with strictly increasing bids.
//!
//! Token movements are not made here: an operation that moves funds returns
//! the transfers, in order, for the host to perform. If one of them fails the
//! host aborts the whole invocation, so none of its writes persist.
use vstd::prelude::*;
use crate::common::Principal;
use crate::store::KeyedStore;

verus! {

/// An item that can be traded.
pub struct GameItem {
    pub item_id: String,
    pub owner: Principal,
    pub metadata: Vec<u8>,
}

pub struct GameItemModel {
    pub item_id: Seq<char>,
    pub owner: Principal,
    pub metadata: Seq<u8>,
}

impl View for GameItem {
    type V = GameItemModel;

    open spec fn view(&self) -> GameItemModel {
        GameItemModel { item_id: self.item_id@, owner: self.owner, metadata: self.metadata@ }
    }
}

/// A fixed-price sale offer.
pub struct TradeOffer {
    pub item_id: String,
    pub seller: Principal,
    pub price: i128,
    pub is_active: bool,
}

pub struct TradeOfferModel {
    pub item_id: Seq<char>,
    pub seller: Principal,
    pub price: i128,
    pub is_active: bool,
}

impl View for TradeOffer {
    type V = TradeOfferModel;

    open spec fn view(&self) -> TradeOfferModel {
        TradeOfferModel {
            item_id: self.item_id@,
            seller: self.seller,
            price: self.price,
            is_active: self.is_active,
        }
    }
}

/// An auction of one item.
pub struct Auction {
    pub item_id: String,
    pub seller: Principal,
    pub highest_bid: i128,
    pub highest_bidder: Principal,
    pub end_time: u64,
    pub is_active: bool,
}

pub struct AuctionModel {
    pub item_id: Seq<char>,
    pub seller: Principal,
    pub highest_bid: i128,
    pub highest_bidder: Principal,
    pub end_time: u64,
    pub is_active: bool,
}

impl View for Auction {
    type V = AuctionModel;

    open spec fn view(&self) -> AuctionModel {
        AuctionModel {
            item_id: self.item_id@,
            seller: self.seller,
            highest_bid: self.highest_bid,
            highest_bidder: self.highest_bidder,
            end_time: self.end_time,
            is_active: self.is_active,
        }
    }
}

/// One completed trade of an item.
#[derive(Clone, Copy, PartialEq, Eq, Structural, Debug)]
pub struct TradeHistory {
    pub seller: Principal,
    pub buyer: Principal,
    pub price: i128,
    pub timestamp: u64,
}

impl View for TradeHistory {
    type V = TradeHistory;

    open spec fn view(&self) -> TradeHistory {
        *self
    }
}

/// What a principal holds in escrow.
#[derive(Clone, Copy, PartialEq, Eq, Structural, Debug)]
pub struct EscrowBalance {
    pub balance: i128,
}

impl View for EscrowBalance {
    type V = EscrowBalance;

    open spec fn view(&self) -> EscrowBalance {
        *self
    }
}

/// A token movement between a principal and the marketplace's own account.
#[derive(Clone, Copy, PartialEq, Eq, Structural, Debug)]
pub enum EscrowTransfer {
    /// `amount` moves from `from` into the marketplace.
    Deposit { from: Principal, amount: i128 },
    /// `amount` moves from the marketplace to `to`.
    Withdraw { to: Principal, amount: i128 },
}

/// Errors of the marketplace.
#[derive(Clone, Copy, PartialEq, Eq, Structural, Debug)]
pub enum Error {
    NotInitialized,
    AlreadyInitialized,
    NotFound,
    ItemNotFound,
    TradeOfferNotFound,
    AuctionNotFound,
    InvalidCaller,
    NotItemOwner,
    OfferNotActive,
    AuctionNotActive,
    AuctionAlreadyEnded,
    AuctionNotEnded,
    BidTooLow,
    InsufficientFunds,
    InvalidAmount,
    InvalidEndTime,
    CannotBidOnOwnAuction,
    NoBidsPlaced,
    TradeAlreadyExists,
    AuctionAlreadyExists,
    ItemAlreadyListed,
    InvalidMetadata,
    ItemNotListed,
    AuctionStillRunning,
    BidAlreadyPlaced,
}

/// Whether the listing flag of an item is set (an item never flagged is not
/// listed).
pub open spec fn is_listed(listed: Map<Seq<char>, bool>, item_id: Seq<char>) -> bool {
    listed.contains_key(item_id) && listed[item_id]
}

/// A principal's escrow balance (zero when it has none).
pub open spec fn balance_of(escrow: Map<Principal, EscrowBalance>, p: Principal) -> int {
    if escrow.contains_key(p) {
        escrow[p].balance as int
    } else {
        0
    }
}

/// The trades recorded for an item (none when it has never been traded).
pub open spec fn trades_of(
    history: Option<KeyedStore<String, Vec<TradeHistory>>>,
    item_id: Seq<char>,
) -> Seq<TradeHistory> {
    match history {
        Some(h) => if h@.contains_key(item_id) {
            h@[item_id]
        } else {
            Seq::empty()
        },
        None => Seq::empty(),
    }
}

/// The marketplace's state.
pub struct ContractMarketplace {
    pub admin: Option<Principal>,
    /// The token in which prices are paid.
    pub token: Option<Principal>,
    pub items: KeyedStore<String, GameItem>,
    pub trade_offers: KeyedStore<String, TradeOffer>,
    pub listed: KeyedStore<String, bool>,
    pub auctions: KeyedStore<String, Auction>,
    /// Trades per item; absent until the first trade.
    pub trade_history: Option<KeyedStore<String, Vec<TradeHistory>>>,
    pub escrow: KeyedStore<Principal, EscrowBalance>,
}

impl ContractMarketplace {
    pub open spec fn wf(&self) -> bool {
        &&& self.items.wf()
        &&& self.trade_offers.wf()
        &&& self.listed.wf()
        &&& self.auctions.wf()
        &&& self.escrow.wf()
        &&& forall|k: Seq<char>| #[trigger]
            self.trade_offers@.contains_key(k) ==> self.trade_offers@[k].price > 0
        &&& forall|p: Principal| #[trigger]
            self.escrow@.contains_key(p) ==> self.escrow@[p].balance >= 0
        &&& match self.trade_history {
            Some(h) => h.wf(),
            None => true,
        }
    }

    /// A marketplace with no admin, no token and no items.
    pub fn new() -> (r: ContractMarketplace)
        ensures
            r.wf(),
            r.admin is None,
            r.token is None,
            r.items@ == Map::<Seq<char>, GameItemModel>::empty(),
            r.trade_offers@ == Map::<Seq<char>, TradeOfferModel>::empty(),
            r.listed@ == Map::<Seq<char>, bool>::empty(),
            r.auctions@ == Map::<Seq<char>, AuctionModel>::empty(),
            r.trade_history is None,
            r.escrow@ == Map::<Principal, EscrowBalance>::empty(),
    {
        ContractMarketplace {
            admin: None,
            token: None,
            items: KeyedStore::new(),
            trade_offers: KeyedStore::new(),
            listed: KeyedStore::new(),
            auctions: KeyedStore::new(),
            trade_history: None,
            escrow: KeyedStore::new(),
        }
    }

    /// Sets the admin and the payment token; fails once an admin exists.
    pub fn initialize(&mut self, admin: Principal, token: Principal) -> (r: Result<(), Error>)
        ensures
            old(self).admin is Some ==> r == Err::<(), _>(Error::AlreadyInitialized)
                && *final(self) == *old(self),
            old(self).admin is None ==> r is Ok && *final(self) == (ContractMarketplace {
                admin: Some(admin),
                token: Some(token),
                ..*old(self)
            }),
    {
        if self.admin.is_some() {
            return Err(Error::AlreadyInitialized);
        }
        self.admin = Some(admin);
        self.token = Some(token);
        Ok(())
    }

    /// Replaces the payment token; only the admin may.
    pub fn set_token_address(&mut self, admin: Principal, new_token: Principal) -> (r: Result<
        (),
        Error,
    >)
        ensures
            r is Err ==> *final(self) == *old(self),
            r == Err::<(), _>(Error::NotInitialized) <==> old(self).admin is None,
            r == Err::<(), _>(Error::InvalidCaller) <==> old(self).admin is Some && old(self).admin
                != Some(admin),
            r is Ok ==> *final(self) == (ContractMarketplace {
                token: Some(new_token),
                ..*old(self)
            }),
    {
        match self.admin {
            None => Err(Error::NotInitialized),
            Some(current) => {
                if current != admin {
                    return Err(Error::InvalidCaller);
                }
                self.token = Some(new_token);
                Ok(())
            },
        }
    }

    /// Puts an item into the store, replacing any item with the same id.
    pub fn put_item(&mut self, item: GameItem)
        requires
            old(self).wf(),
        ensures
            final(self).wf(),
            final(self).items@ == old(self).items@.insert(item.item_id@, item@),
            *final(self) == (ContractMarketplace { items: final(self).items, ..*old(self) }),
    {
        let key = item.item_id.clone();
        self.items.set(key, item);
    }

    /// The item with this id.
    pub fn get_item(&self, item_id: &String) -> (r: Option<&GameItem>)
        requires
            self.wf(),
        ensures
            match r {
                Some(i) => self.items@.contains_key(item_id@) && i@ == self.items@[item_id@],
                None => !self.items@.contains_key(item_id@),
            },
    {
        self.items.get(item_id)
    }

    fn listed_flag(&self, item_id: &String) -> (r: bool)
        requires
            self.wf(),
        ensures
            r == is_listed(self.listed@, item_id@),
    {
        match self.listed.get(item_id) {
            Some(b) => *b,
            None => false,
        }
    }

    /// The escrow balance of `user`.
    pub fn escrow_balance(&self, user: Principal) -> (r: i128)
        requires
            self.wf(),
        ensures
            r == balance_of(self.escrow@, user),
    {
        match self.escrow.get(&user) {
            Some(b) => b.balance,
            None => 0,
        }
    }

    /// The payment token.
    pub fn internal_get_token(&self) -> (r: Result<Principal, Error>)
        ensures
            match self.token {
                Some(t) => r == Ok::<Principal, Error>(t),
                None => r == Err::<Principal, _>(Error::NotInitialized),
            },
    {
        match self.token {
            Some(t) => Ok(t),
            None => Err(Error::NotInitialized),
        }
    }

    /// Credits `amount` to `user`'s escrow; the returned transfer moves the
    /// funds from `user` into the marketplace.
    pub fn deposit_escrow(&mut self, user: Principal, amount: i128) -> (r: Result<
        EscrowTransfer,
        Error,
    >)
        requires
            old(self).wf(),
        ensures
            final(self).wf(),
            r is Err ==> *final(self) == *old(self),
            r == Err::<EscrowTransfer, _>(Error::InvalidAmount) <==> amount <= 0 || (old(
                self,
            ).token is Some && balance_of(old(self).escrow@, user) + amount > i128::MAX),
            r == Err::<EscrowTransfer, _>(Error::NotInitialized) <==> amount > 0 && old(
                self,
            ).token is None,
            r is Ok <==> amount > 0 && old(self).token is Some && balance_of(old(self).escrow@, user)
                + amount <= i128::MAX,
            r is Ok ==> {
                &&& r == Ok::<EscrowTransfer, Error>(EscrowTransfer::Deposit { from: user, amount })
                &&& final(self).escrow@ == old(self).escrow@.insert(
                    user,
                    EscrowBalance { balance: (balance_of(old(self).escrow@, user) + amount) as i128 },
                )
                &&& *final(self) == (ContractMarketplace {
                    escrow: final(self).escrow,
                    ..*old(self)
                })
            },
    {
        if amount <= 0 {
            return Err(Error::InvalidAmount);
        }
        let balance = self.escrow_balance(user);
        self.internal_get_token()?;
        if balance > i128::MAX - amount {
            return Err(Error::InvalidAmount);
        }
        let ghost old_self = *self;
        self.escrow.set(user, EscrowBalance { balance: balance + amount });
        assert forall|p: Principal| #[trigger] self.escrow@.contains_key(p) implies self.escrow@[p].balance >= 0 by {
            if p != user {
                assert(old_self.escrow@.contains_key(p));
            }
        }
        Ok(EscrowTransfer::Deposit { from: user, amount })
    }
}

impl ContractMarketplace {
    /// Debits `amount` from `user`'s escrow and pays it out to `payee`: the
    /// returned transfer moves the funds from the marketplace to `payee`.
    pub fn release_escrow(&mut self, user: Principal, payee: Principal, amount: i128) -> (r: Result<
        EscrowTransfer,
        Error,
    >)
        requires
            old(self).wf(),
        ensures
            final(self).wf(),
            r is Err ==> *final(self) == *old(self),
            r == Err::<EscrowTransfer, _>(Error::InvalidAmount) <==> amount <= 0,
            r == Err::<EscrowTransfer, _>(Error::InsufficientFunds) <==> amount > 0 && balance_of(
                old(self).escrow@,
                user,
            ) < amount,
            r == Err::<EscrowTransfer, _>(Error::NotInitialized) <==> amount > 0 && balance_of(
                old(self).escrow@,
                user,
            ) >= amount && old(self).token is None,
            r is Ok <==> amount > 0 && balance_of(old(self).escrow@, user) >= amount && old(
                self,
            ).token is Some,
            r is Ok ==> {
                &&& r == Ok::<EscrowTransfer, Error>(EscrowTransfer::Withdraw { to: payee, amount })
                &&& final(self).escrow@ == old(self).escrow@.insert(
                    user,
                    EscrowBalance { balance: (balance_of(old(self).escrow@, user) - amount) as i128 },
                )
                &&& *final(self) == (ContractMarketplace {
                    escrow: final(self).escrow,
                    ..*old(self)
                })
            },
    {
        if amount <= 0 {
            return Err(Error::InvalidAmount);
        }
        let balance = self.escrow_balance(user);
        if balance < amount {
            return Err(Error::InsufficientFunds);
        }
        self.internal_get_token()?;
        let ghost old_self = *self;
        self.escrow.set(user, EscrowBalance { balance: balance - amount });
        assert forall|p: Principal| #[trigger] self.escrow@.contains_key(p) implies self.escrow@[p].balance >= 0 by {
            if p != user {
                assert(old_self.escrow@.contains_key(p));
            }
        }
        Ok(EscrowTransfer::Withdraw { to: payee, amount })
    }

    /// Debits `amount` from `user`'s escrow; the returned transfer moves the
    /// funds from the marketplace to `user`.
    pub fn withdraw_escrow(&mut self, user: Principal, amount: i128) -> (r: Result<
        EscrowTransfer,
        Error,
    >)
        requires
            old(self).wf(),
        ensures
            final(self).wf(),
            r is Err ==> *final(self) == *old(self),
            r == Err::<EscrowTransfer, _>(Error::InvalidAmount) <==> amount <= 0,
            r == Err::<EscrowTransfer, _>(Error::InsufficientFunds) <==> amount > 0 && balance_of(
                old(self).escrow@,
                user,
            ) < amount,
            r == Err::<EscrowTransfer, _>(Error::NotInitialized) <==> amount > 0 && balance_of(
                old(self).escrow@,
                user,
            ) >= amount && old(self).token is None,
            r is Ok <==> amount > 0 && balance_of(old(self).escrow@, user) >= amount && old(
                self,
            ).token is Some,
            r is Ok ==> {
                &&& r == Ok::<EscrowTransfer, Error>(EscrowTransfer::Withdraw { to: user, amount })
                &&& final(self).escrow@ == old(self).escrow@.insert(
                    user,
                    EscrowBalance { balance: (balance_of(old(self).escrow@, user) - amount) as i128 },
                )
                &&& *final(self) == (ContractMarketplace {
                    escrow: final(self).escrow,
                    ..*old(self)
                })
            },
    {
        self.release_escrow(user, user, amount)
    }

    /// The first check that `create_trade_offer` fails, if any.
    pub open spec fn create_trade_offer_error(
        &self,
        item_id: Seq<char>,
        seller: Principal,
        price: i128,
    ) -> Option<Error> {
        if price <= 0 {
            Some(Error::InvalidAmount)
        } else if !self.items@.contains_key(item_id) {
            Some(Error::ItemNotFound)
        } else if self.items@[item_id].owner != seller {
            Some(Error::NotItemOwner)
        } else if is_listed(self.listed@, item_id) {
            Some(Error::ItemAlreadyListed)
        } else if self.trade_offers@.contains_key(item_id)
            && self.trade_offers@[item_id].is_active {
            Some(Error::ItemAlreadyListed)
        } else {
            None
        }
    }

    /// Lists an item for sale at `price`; only its owner may.
    pub fn create_trade_offer(&mut self, item_id: &String, seller: Principal, price: i128) -> (r:
        Result<(), Error>)
        requires
            old(self).wf(),
        ensures
            final(self).wf(),
            match old(self).create_trade_offer_error(item_id@, seller, price) {
                Some(e) => r == Err::<(), _>(e) && *final(self) == *old(self),
                None => {
                    &&& r is Ok
                    &&& final(self).trade_offers@ == old(self).trade_offers@.insert(
                        item_id@,
                        TradeOfferModel { item_id: item_id@, seller, price, is_active: true },
                    )
                    &&& final(self).listed@ == old(self).listed@.insert(item_id@, true)
                    &&& *final(self) == (ContractMarketplace {
                        trade_offers: final(self).trade_offers,
                        listed: final(self).listed,
                        ..*old(self)
                    })
                },
            },
    {
        if price <= 0 {
            return Err(Error::InvalidAmount);
        }
        match self.items.get(item_id) {
            Some(item) => {
                if item.owner != seller {
                    return Err(Error::NotItemOwner);
                }
            },
            None => {
                return Err(Error::ItemNotFound);
            },
        }
        if self.listed_flag(item_id) {
            return Err(Error::ItemAlreadyListed);
        }
        match self.trade_offers.get(item_id) {
            Some(offer) => {
                if offer.is_active {
                    return Err(Error::ItemAlreadyListed);
                }
            },
            None => {},
        }
        let ghost old_self = *self;
        let offer = TradeOffer { item_id: item_id.clone(), seller, price, is_active: true };
        self.trade_offers.set(item_id.clone(), offer);
        self.listed.set(item_id.clone(), true);
        assert forall|k: Seq<char>| #[trigger]
            self.trade_offers@.contains_key(k) implies self.trade_offers@[k].price > 0 by {
            if k != item_id@ {
                assert(old_self.trade_offers@.contains_key(k));
            }
        }
        Ok(())
    }

    /// The first check that `execute_trade` fails, if any.
    pub open spec fn execute_trade_error(&self, item_id: Seq<char>, buyer: Principal) -> Option<
        Error,
    > {
        let offer = self.trade_offers@[item_id];
        if !self.items@.contains_key(item_id) {
            Some(Error::NotInitialized)
        } else if !self.trade_offers@.contains_key(item_id) {
            Some(Error::NotInitialized)
        } else if !is_listed(self.listed@, item_id) {
            Some(Error::NotInitialized)
        } else if offer.seller == buyer {
            Some(Error::InvalidCaller)
        } else if !offer.is_active {
            Some(Error::OfferNotActive)
        } else if self.token is None {
            Some(Error::NotInitialized)
        } else if balance_of(self.escrow@, buyer) + offer.price > i128::MAX {
            Some(Error::InvalidAmount)
        } else {
            None
        }
    }

    /// Sells a listed item to `buyer` at the offer's price: the buyer's
    /// payment goes into escrow, the item changes hands, the offer and the
    /// listing are cleared, the escrowed payment is forwarded to the seller,
    /// and the trade is recorded. Returns the token transfers to perform, in
    /// order: the buyer pays the price in, then the marketplace pays it out
    /// to the seller.
    pub fn execute_trade(&mut self, item_id: &String, buyer: Principal, now: u64) -> (r: Result<
        Vec<EscrowTransfer>,
        Error,
    >)
        requires
            old(self).wf(),
        ensures
            final(self).wf(),
            match old(self).execute_trade_error(item_id@, buyer) {
                Some(e) => r == Err::<Vec<EscrowTransfer>, _>(e) && *final(self) == *old(self),
                None => {
                    let offer = old(self).trade_offers@[item_id@];
                    let item = old(self).items@[item_id@];
                    &&& r is Ok
                    &&& r->Ok_0@ == seq![
                        EscrowTransfer::Deposit { from: buyer, amount: offer.price },
                        EscrowTransfer::Withdraw { to: offer.seller, amount: offer.price },
                    ]
                    &&& final(self).items@ == old(self).items@.insert(
                        item_id@,
                        GameItemModel { owner: buyer, ..item },
                    )
                    &&& final(self).trade_offers@ == old(self).trade_offers@.remove(item_id@)
                    &&& final(self).listed@ == old(self).listed@.insert(item_id@, false)
                    &&& final(self).escrow@ == old(self).escrow@.insert(
                        buyer,
                        EscrowBalance { balance: balance_of(old(self).escrow@, buyer) as i128 },
                    )
                    &&& final(self).trade_history is Some
                    &&& forall|k: Seq<char>|
                        k != item_id@ ==> trades_of(final(self).trade_history, k) == trades_of(
                            old(self).trade_history,
                            k,
                        )
                    &&& trades_of(final(self).trade_history, item_id@) == trades_of(
                        old(self).trade_history,
                        item_id@,
                    ).push(
                        TradeHistory {
                            seller: offer.seller,
                            buyer,
                            price: offer.price,
                            timestamp: now,
                        },
                    )
                    &&& final(self).admin == old(self).admin
                    &&& final(self).token == old(self).token
                    &&& final(self).auctions == old(self).auctions
                },
            },
    {
        if !self.items.contains(item_id) {
            return Err(Error::NotInitialized);
        }
        let (seller, price, active) = match self.trade_offers.get(item_id) {
            Some(offer) => (offer.seller, offer.price, offer.is_active),
            None => {
                return Err(Error::NotInitialized);
            },
        };
        if !self.listed_flag(item_id) {
            return Err(Error::NotInitialized);
        }
        if seller == buyer {
            return Err(Error::InvalidCaller);
        }
        if !active {
            return Err(Error::OfferNotActive);
        }
        self.internal_get_token()?;
        if self.escrow_balance(buyer) > i128::MAX - price {
            return Err(Error::InvalidAmount);
        }
        let ghost old_self = *self;
        let mut transfers: Vec<EscrowTransfer> = Vec::new();
        match self.deposit_escrow(buyer, price) {
            Ok(t) => transfers.push(t),
            Err(e) => {
                return Err(e);
            },
        }
        let mut item = match self.items.take(item_id) {
            Some(i) => i,
            None => {
                return Err(Error::NotInitialized);
            },
        };
        let ghost old_item = item@;
        item.owner = buyer;
        self.items.set(item_id.clone(), item);
        let _ = self.trade_offers.take(item_id);
        self.listed.set(item_id.clone(), false);
        match self.release_escrow(buyer, seller, price) {
            Ok(t) => transfers.push(t),
            Err(e) => {
                return Err(e);
            },
        }
        let record = TradeHistory { seller, buyer, price, timestamp: now };
        let mut histories = match self.trade_history.take() {
            Some(h) => h,
            None => KeyedStore::new(),
        };
        let ghost old_histories = histories;
        let mut trades = match histories.take(item_id) {
            Some(t) => t,
            None => Vec::new(),
        };
        trades.push(record);
        histories.set(item_id.clone(), trades);
        self.trade_history = Some(histories);
        proof {
            assert(self.items@ =~= old_self.items@.insert(
                item_id@,
                GameItemModel { owner: buyer, ..old_item },
            ));
            assert(self.escrow@ =~= old_self.escrow@.insert(
                buyer,
                EscrowBalance { balance: balance_of(old_self.escrow@, buyer) as i128 },
            ));
            assert(transfers@ =~= seq![
                EscrowTransfer::Deposit { from: buyer, amount: price },
                EscrowTransfer::Withdraw { to: seller, amount: price },
            ]);
            assert forall|k: Seq<char>| #[trigger]
                self.trade_offers@.contains_key(k) implies self.trade_offers@[k].price > 0 by {
                assert(old_self.trade_offers@.contains_key(k));
            }
            assert forall|k: Seq<char>|
                k != item_id@ implies trades_of(self.trade_history, k) == trades_of(
                    old_self.trade_history,
                    k,
                ) by {
                match old_self.trade_history {
                    Some(h) => {},
                    None => {
                        assert(!old_histories@.contains_key(k));
                    },
                }
            }
            match old_self.trade_history {
                Some(h) => {},
                None => {
                    assert(!old_histories@.contains_key(item_id@));
                },
            }
        }
        Ok(transfers)
    }

    /// The first check that `cancel_trade_offer` fails, if any.
    pub open spec fn cancel_trade_offer_error(&self, item_id: Seq<char>, seller: Principal) -> Option<
        Error,
    > {
        if !self.items@.contains_key(item_id) {
            Some(Error::NotInitialized)
        } else if !self.trade_offers@.contains_key(item_id) {
            Some(Error::NotInitialized)
        } else if self.items@[item_id].owner != seller {
            Some(Error::NotItemOwner)
        } else if !is_listed(self.listed@, item_id) {
            Some(Error::ItemNotListed)
        } else if !self.trade_offers@[item_id].is_active {
            Some(Error::OfferNotActive)
        } else {
            None
        }
    }

    /// Withdraws an item's offer; only its owner may.
    pub fn cancel_trade_offer(&mut self, item_id: &String, seller: Principal) -> (r: Result<
        (),
        Error,
    >)
        requires
            old(self).wf(),
        ensures
            final(self).wf(),
            match old(self).cancel_trade_offer_error(item_id@, seller) {
                Some(e) => r == Err::<(), _>(e) && *final(self) == *old(self),
                None => {
                    &&& r is Ok
                    &&& final(self).trade_offers@ == old(self).trade_offers@.remove(item_id@)
                    &&& final(self).listed@ == old(self).listed@.insert(item_id@, false)
                    &&& *final(self) == (ContractMarketplace {
                        trade_offers: final(self).trade_offers,
                        listed: final(self).listed,
                        ..*old(self)
                    })
                },
            },
    {
        let owner = match self.items.get(item_id) {
            Some(item) => item.owner,
            None => {
                return Err(Error::NotInitialized);
            },
        };
        let active = match self.trade_offers.get(item_id) {
            Some(offer) => offer.is_active,
            None => {
                return Err(Error::NotInitialized);
            },
        };
        if owner != seller {
            return Err(Error::NotItemOwner);
        }
        if !self.listed_flag(item_id) {
            return Err(Error::ItemNotListed);
        }
        if !active {
            return Err(Error::OfferNotActive);
        }
        let ghost old_self = *self;
        let _ = self.trade_offers.take(item_id);
        self.listed.set(item_id.clone(), false);
        assert forall|k: Seq<char>| #[trigger]
            self.trade_offers@.contains_key(k) implies self.trade_offers@[k].price > 0 by {
            assert(old_self.trade_offers@.contains_key(k));
        }
        Ok(())
    }

    /// The trades of an item, oldest first; `NotInitialized` before the
    /// marketplace's first trade.
    pub fn get_trade_history(&self, item_id: &String) -> (r: Result<Vec<TradeHistory>, Error>)
        requires
            self.wf(),
        ensures
            self.trade_history is None ==> r == Err::<Vec<TradeHistory>, _>(Error::NotInitialized),
            self.trade_history is Some ==> r is Ok && r->Ok_0@ == trades_of(
                self.trade_history,
                item_id@,
            ),
    {
        match &self.trade_history {
            None => Err(Error::NotInitialized),
            Some(h) => match h.get(item_id) {
                Some(trades) => {
                    let mut r: Vec<TradeHistory> = Vec::new();
                    let mut i: usize = 0;
                    while i < trades.len()
                        invariant
                            0 <= i <= trades@.len(),
                            r@ == trades@.subrange(0, i as int),
                        decreases trades@.len() - i,
                    {
                        r.push(trades[i]);
                        assert(r@ =~= trades@.subrange(0, i + 1));
                        i = i + 1;
                    }
                    assert(r@ =~= trades@);
                    Ok(r)
                },
                None => {
                    let r: Vec<TradeHistory> = Vec::new();
                    assert(r@ =~= Seq::<TradeHistory>::empty());
                    Ok(r)
                },
            },
        }
    }

    /// The first check that `start_auction` fails, if any.
    pub open spec fn start_auction_error(
        &self,
        item_id: Seq<char>,
        seller: Principal,
        duration: u64,
        now: u64,
    ) -> Option<Error> {
        if duration == 0 {
            Some(Error::InvalidEndTime)
        } else if !self.items@.contains_key(item_id) {
            Some(Error::ItemNotFound)
        } else if self.items@[item_id].owner != seller {
            Some(Error::NotItemOwner)
        } else if !is_listed(self.listed@, item_id) {
            Some(Error::ItemNotListed)
        } else if self.auctions@.contains_key(item_id) && self.auctions@[item_id].is_active {
            Some(Error::AlreadyInitialized)
        } else if now + duration > u64::MAX {
            Some(Error::InvalidEndTime)
        } else {
            None
        }
    }

    /// Opens an auction of a listed item, ending `duration` seconds from
    /// `now`, with `base_price` as the bid to beat; only the owner may.
    pub fn start_auction(
        &mut self,
        item_id: &String,
        seller: Principal,
        base_price: i128,
        duration: u64,
        now: u64,
    ) -> (r: Result<(), Error>)
        requires
            old(self).wf(),
        ensures
            final(self).wf(),
            match old(self).start_auction_error(item_id@, seller, duration, now) {
                Some(e) => r == Err::<(), _>(e) && *final(self) == *old(self),
                None => {
                    &&& r is Ok
                    &&& final(self).auctions@ == old(self).auctions@.insert(
                        item_id@,
                        AuctionModel {
                            item_id: item_id@,
                            seller,
                            highest_bid: base_price,
                            highest_bidder: seller,
                            end_time: (now + duration) as u64,
                            is_active: true,
                        },
                    )
                    &&& final(self).listed@ == old(self).listed@.insert(item_id@, true)
                    &&& *final(self) == (ContractMarketplace {
                        auctions: final(self).auctions,
                        listed: final(self).listed,
                        ..*old(self)
                    })
                },
            },
    {
        if duration == 0 {
            return Err(Error::InvalidEndTime);
        }
        match self.items.get(item_id) {
            Some(item) => {
                if item.owner != seller {
                    return Err(Error::NotItemOwner);
                }
            },
            None => {
                return Err(Error::ItemNotFound);
            },
        }
        if !self.listed_flag(item_id) {
            return Err(Error::ItemNotListed);
        }
        match self.auctions.get(item_id) {
            Some(existing) => {
                if existing.is_active {
                    return Err(Error::AlreadyInitialized);
                }
            },
            None => {},
        }
        if now > u64::MAX - duration {
            return Err(Error::InvalidEndTime);
        }
        let auction = Auction {
            item_id: item_id.clone(),
            seller,
            highest_bid: base_price,
            highest_bidder: seller,
            end_time: now + duration,
            is_active: true,
        };
        self.auctions.set(item_id.clone(), auction);
        self.listed.set(item_id.clone(), true);
        Ok(())
    }

    /// The first check that `place_bid` fails, if any.
    pub open spec fn place_bid_error(
        &self,
        item_id: Seq<char>,
        bidder: Principal,
        bid: i128,
        now: u64,
    ) -> Option<Error> {
        let a = self.auctions@[item_id];
        if bid <= 0 {
            Some(Error::InvalidAmount)
        } else if !self.auctions@.contains_key(item_id) {
            Some(Error::AuctionNotFound)
        } else if !a.is_active {
            Some(Error::AuctionNotActive)
        } else if a.seller == bidder {
            Some(Error::InvalidCaller)
        } else if a.end_time < now {
            Some(Error::AuctionAlreadyEnded)
        } else if a.highest_bid >= bid {
            Some(Error::BidTooLow)
        } else {
            None
        }
    }

    /// Places a bid above the current highest one on a running auction; the
    /// seller may not bid.
    pub fn place_bid(&mut self, item_id: &String, bidder: Principal, bid: i128, now: u64) -> (r:
        Result<(), Error>)
        requires
            old(self).wf(),
        ensures
            final(self).wf(),
            match old(self).place_bid_error(item_id@, bidder, bid, now) {
                Some(e) => r == Err::<(), _>(e) && *final(self) == *old(self),
                None => {
                    let a = old(self).auctions@[item_id@];
                    &&& r is Ok
                    &&& final(self).auctions@ == old(self).auctions@.insert(
                        item_id@,
                        AuctionModel { highest_bid: bid, highest_bidder: bidder, ..a },
                    )
                    &&& *final(self) == (ContractMarketplace {
                        auctions: final(self).auctions,
                        ..*old(self)
                    })
                },
            },
    {
        if bid <= 0 {
            return Err(Error::InvalidAmount);
        }
        match self.auctions.get(item_id) {
            Some(a) => {
                if !a.is_active {
                    return Err(Error::AuctionNotActive);
                }
                if a.seller == bidder {
                    return Err(Error::InvalidCaller);
                }
                if a.end_time < now {
                    return Err(Error::AuctionAlreadyEnded);
                }
                if a.highest_bid >= bid {
                    return Err(Error::BidTooLow);
                }
            },
            None => {
                return Err(Error::AuctionNotFound);
            },
        }
        let ghost old_self = *self;
        let mut auction = match self.auctions.take(item_id) {
            Some(a) => a,
            None => {
                return Err(Error::AuctionNotFound);
            },
        };
        let ghost before = auction@;
        auction.highest_bid = bid;
        auction.highest_bidder = bidder;
        self.auctions.set(item_id.clone(), auction);
        assert(self.auctions@ =~= old_self.auctions@.insert(
            item_id@,
            AuctionModel { highest_bid: bid, highest_bidder: bidder, ..before },
        ));
        Ok(())
    }

    /// The first check that `claim_bid` fails, if any.
    pub open spec fn claim_bid_error(&self, item_id: Seq<char>, claimer: Principal, now: u64) -> Option<
        Error,
    > {
        let a = self.auctions@[item_id];
        if !self.auctions@.contains_key(item_id) {
            Some(Error::AuctionNotFound)
        } else if !a.is_active {
            Some(Error::AuctionNotActive)
        } else if a.end_time >= now {
            Some(Error::AuctionStillRunning)
        } else if a.highest_bidder != claimer {
            Some(Error::InvalidCaller)
        } else if !self.items@.contains_key(item_id) {
            Some(Error::ItemNotFound)
        } else {
            None
        }
    }

    /// Hands the item of an ended auction to its highest bidder and closes
    /// the auction; only that bidder may.
    pub fn claim_bid(&mut self, item_id: &String, claimer: Principal, now: u64) -> (r: Result<
        (),
        Error,
    >)
        requires
            old(self).wf(),
        ensures
            final(self).wf(),
            match old(self).claim_bid_error(item_id@, claimer, now) {
                Some(e) => r == Err::<(), _>(e) && *final(self) == *old(self),
                None => {
                    let a = old(self).auctions@[item_id@];
                    let item = old(self).items@[item_id@];
                    &&& r is Ok
                    &&& final(self).items@ == old(self).items@.insert(
                        item_id@,
                        GameItemModel { owner: claimer, ..item },
                    )
                    &&& final(self).auctions@ == old(self).auctions@.insert(
                        item_id@,
                        AuctionModel { is_active: false, ..a },
                    )
                    &&& *final(self) == (ContractMarketplace {
                        items: final(self).items,
                        auctions: final(self).auctions,
                        ..*old(self)
                    })
                },
            },
    {
        match self.auctions.get(item_id) {
            Some(a) => {
                if !a.is_active {
                    return Err(Error::AuctionNotActive);
                }
                if a.end_time >= now {
                    return Err(Error::AuctionStillRunning);
                }
                if a.highest_bidder != claimer {
                    return Err(Error::InvalidCaller);
                }
            },
            None => {
                return Err(Error::AuctionNotFound);
            },
        }
        if !self.items.contains(item_id) {
            return Err(Error::ItemNotFound);
        }
        let ghost old_self = *self;
        let mut item = match self.items.take(item_id) {
            Some(i) => i,
            None => {
                return Err(Error::ItemNotFound);
            },
        };
        let ghost old_item = item@;
        item.owner = claimer;
        self.items.set(item_id.clone(), item);
        let mut auction = match self.auctions.take(item_id) {
            Some(a) => a,
            None => {
                return Err(Error::AuctionNotFound);
            },
        };
        let ghost old_auction = auction@;
        auction.is_active = false;
        self.auctions.set(item_id.clone(), auction);
        assert(self.items@ =~= old_self.items@.insert(
            item_id@,
            GameItemModel { owner: claimer, ..old_item },
        ));
        assert(self.auctions@ =~= old_self.auctions@.insert(
            item_id@,
            AuctionModel { is_active: false, ..old_auction },
        ));
        Ok(())
    }

    /// The first check that `cancel_auction` fails, if any.
    pub open spec fn cancel_auction_error(&self, item_id: Seq<char>, seller: Principal) -> Option<
        Error,
    > {
        let a = self.auctions@[item_id];
        if !self.auctions@.contains_key(item_id) {
            Some(Error::AuctionNotFound)
        } else if !a.is_active {
            Some(Error::AuctionNotActive)
        } else if a.seller != seller {
            Some(Error::InvalidCaller)
        } else if a.highest_bidder != seller {
            Some(Error::BidAlreadyPlaced)
        } else {
            None
        }
    }

    /// Removes an active auction that has no bid yet; only its seller may.
    pub fn cancel_auction(&mut self, item_id: &String, seller: Principal) -> (r: Result<(), Error>)
        requires
            old(self).wf(),
        ensures
            final(self).wf(),
            match old(self).cancel_auction_error(item_id@, seller) {
                Some(e) => r == Err::<(), _>(e) && *final(self) == *old(self),
                None => {
                    &&& r is Ok
                    &&& final(self).auctions@ == old(self).auctions@.remove(item_id@)
                    &&& *final(self) == (ContractMarketplace {
                        auctions: final(self).auctions,
                        ..*old(self)
                    })
                },
            },
    {
        match self.auctions.get(item_id) {
            Some(a) => {
                if !a.is_active {
                    return Err(Error::AuctionNotActive);
                }
                if a.seller != seller {
                    return Err(Error::InvalidCaller);
                }
                if a.highest_bidder != seller {
                    return Err(Error::BidAlreadyPlaced);
                }
            },
            None => {
                return Err(Error::AuctionNotFound);
            },
        }
        let _ = self.auctions.take(item_id);
        Ok(())
    }
}

} // verus!
