//! The core of an auction bot for chat channels: the rules by which bids
//! are judged, the registry that binds each channel to at most one live
//! auction, the store of auctions, the auction house that submits bids and
//! sweeps expired auctions, and the readers and writers of prices, dates and
//! time spans that the listing dialogue uses.

pub mod auction_manager;
pub mod calendar;
pub mod engine;
pub mod formats;
pub mod listing;
pub mod models;
pub mod registry;
pub mod store;
pub mod text;
pub mod theorems;
