//! A ledger-backed entity engine for a family of game contracts: asset
//! registry, reviews, voting, player identity, marketplace, leaderboards and
//! game state. Every operation checks authorization and invariants before it
//! writes, and a failed operation leaves the store as it was.

pub mod common;
pub mod index;
pub mod store;
pub mod asset_registry;
pub mod game_review;
pub mod voting;
pub mod identity;
pub mod marketplace;
pub mod leaderboard;
pub mod game_state;
