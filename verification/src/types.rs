use vstd::prelude::*;

use crate::account::{AccountId, Balance};

verus! {

/// An NFT: the hash of its content, its owner, and the one account (if any)
/// that the owner has approved to transfer it.
#[derive(Debug)]
pub struct Content {
    pub content_hash: String,
    pub owner: AccountId,
    pub approved: Option<AccountId>,
}

impl Clone for Content {
    fn clone(&self) -> (r: Self)
        ensures
            r == *self,
    {
        Content { content_hash: self.content_hash.clone(), owner: self.owner, approved: self.approved }
    }
}

/// A marketplace listing of an NFT.
#[derive(Clone, Copy, Debug)]
pub struct Listing {
    pub asset_id: u64,
    pub seller: AccountId,
    pub price: Balance,
    pub is_active: bool,
}

/// Recorded when an NFT is listed.
#[derive(Clone, Copy, Debug)]
pub struct AssetListed {
    pub asset_id: u64,
    pub seller: AccountId,
    pub price: Balance,
}

/// Recorded when an NFT is sold.
#[derive(Clone, Copy, Debug)]
pub struct AssetSold {
    pub asset_id: u64,
    pub seller: AccountId,
    pub buyer: AccountId,
    pub price: Balance,
}

/// Recorded when the price of a listing changes.
#[derive(Clone, Copy, Debug)]
pub struct ListingUpdated {
    pub asset_id: u64,
    pub new_price: Balance,
}

/// Recorded when a listing is canceled.
#[derive(Clone, Copy, Debug)]
pub struct ListingCanceled {
    pub asset_id: u64,
}

/// Every event the marketplace records, in the order in which it happened.
#[derive(Clone, Copy, Debug)]
pub enum MarketEvent {
    AssetListed(AssetListed),
    AssetSold(AssetSold),
    ListingUpdated(ListingUpdated),
    ListingCanceled(ListingCanceled),
}

/// Why a marketplace message was refused.
#[derive(Clone, Copy, Debug, PartialEq, Eq, Structural)]
pub enum Error {
    NotAdmin,
    ContentNotFound,
    NotOwner,
    CounterOverflow,
    InvalidContent,
    AssetAlreadyListed,
    ListingNotFound,
    ListingNotActive,
    InvalidPrice,
    TransferFailed,
    UnauthorizedTransfer,
    /// A purchase was refused because an earlier one still awaits settlement.
    SalePending,
    /// There is no purchase to settle.
    NoSalePending,
}

/// A purchase that has been recorded in the marketplace and still has to be paid
/// out: the price to the seller, and what the buyer sent beyond it back to the
/// buyer.
#[derive(Clone, Copy, Debug)]
pub struct Sale {
    pub asset_id: u64,
    pub seller: AccountId,
    pub buyer: AccountId,
    pub price: Balance,
    pub excess: Balance,
}

impl Sale {
    /// The payments that settle the sale, in the order in which they are made:
    /// the price to the seller, then the excess back to the buyer when there is any.
    pub open spec fn payouts_spec(self) -> Seq<(AccountId, Balance)> {
        if self.excess > 0 {
            seq![(self.seller, self.price), (self.buyer, self.excess)]
        } else {
            seq![(self.seller, self.price)]
        }
    }

    pub fn payouts(&self) -> (r: Vec<(AccountId, Balance)>)
        ensures
            r@ == self.payouts_spec(),
    {
        let mut r: Vec<(AccountId, Balance)> = Vec::new();
        r.push((self.seller, self.price));
        if self.excess > 0 {
            r.push((self.buyer, self.excess));
        }
        proof {
            assert(r@ =~= self.payouts_spec());
        }
        r
    }
}

/// A purchase recorded in the marketplace whose payouts are under way: how
/// many of the sale's payouts have gone through, and whether one failed.
#[derive(Clone, Copy, Debug)]
pub struct Purchase {
    pub sale: Sale,
    pub made: usize,
    pub failed: bool,
}

} // verus!
