pub mod account;
pub mod laws;
pub mod marketplace;
pub mod model;
pub mod types;

pub use crate::account::{AccountId, Balance};
pub use crate::marketplace::NFTMarketplace;
pub use crate::model::{MarketView, Message};
pub use crate::types::{
    AssetListed, AssetSold, Content, Error, Listing, ListingCanceled, ListingUpdated,
    MarketEvent, Purchase, Sale,
};
