use vstd::prelude::*;

use crate::account::{AccountId, Balance};
use crate::types::{
    AssetListed, AssetSold, Content, Error, Listing, ListingCanceled, ListingUpdated, MarketEvent,
    Purchase, Sale,
};

verus! {

/// The abstract state of a marketplace: NFTs and listings by asset id, the id
/// the next new NFT gets, the events recorded so far (oldest first), and the
/// purchase, if any, whose payouts are under way.
#[verifier::ext_equal]
pub struct MarketView {
    pub admin: AccountId,
    pub contents: Map<u64, Content>,
    pub listings: Map<u64, Listing>,
    pub next_content_id: u64,
    pub events: Seq<MarketEvent>,
    pub pending: Option<Purchase>,
}

impl MarketView {
    /// A freshly created marketplace.
    pub open spec fn initial(admin: AccountId) -> MarketView {
        MarketView {
            admin,
            contents: Map::empty(),
            listings: Map::empty(),
            next_content_id: 1,
            events: Seq::empty(),
            pending: None,
        }
    }

    /// NFT `id` exists and its content hash is `h`.
    pub open spec fn has_hash(self, id: u64, h: Seq<char>) -> bool {
        self.contents.contains_key(id) && self.contents[id].content_hash@ == h
    }

    /// No two NFTs share a content hash.
    pub open spec fn hashes_unique(self) -> bool {
        forall|a: u64, b: u64|
            #[trigger] self.contents.contains_key(a) && #[trigger] self.contents.contains_key(b)
                && self.contents[a].content_hash@ == self.contents[b].content_hash@ ==> a == b
    }

    /// The marketplace invariant: the NFTs are exactly those with ids `1` up to
    /// (not including) `next_content_id`, their content hashes are distinct,
    /// every listing belongs to an existing NFT and carries its id, an active
    /// listing has a nonzero price and is offered by the NFT's owner, and a
    /// pending purchase is of an existing NFT and has made no more payouts
    /// than its sale has.
    pub open spec fn wf(self) -> bool {
        &&& 1 <= self.next_content_id
        &&& forall|id: u64| #[trigger]
            self.contents.contains_key(id) <==> 1 <= id < self.next_content_id
        &&& forall|id: u64| #[trigger]
            self.listings.contains_key(id) ==> self.contents.contains_key(id)
                && self.listings[id].asset_id == id
        &&& forall|id: u64| #[trigger]
            self.listings.contains_key(id) && self.listings[id].is_active
                ==> self.listings[id].seller == self.contents[id].owner && self.listings[id].price
                > 0
        &&& self.hashes_unique()
        &&& self.pending matches Some(p) ==> self.contents.contains_key(p.sale.asset_id) && p.made
            <= p.sale.payouts_spec().len()
    }

    /// The id of the NFT whose content hash is `h`, if there is one.
    pub open spec fn id_of_hash(self, h: Seq<char>) -> Option<u64> {
        if exists|id: u64| self.has_hash(id, h) {
            Some(choose|id: u64| self.has_hash(id, h))
        } else {
            None
        }
    }

    /// NFT `id` is listed for sale.
    pub open spec fn is_listed(self, id: u64) -> bool {
        self.listings.contains_key(id) && self.listings[id].is_active
    }

    pub open spec fn with_content(self, id: u64, c: Content) -> MarketView {
        MarketView { contents: self.contents.insert(id, c), ..self }
    }

    pub open spec fn with_listing(self, id: u64, l: Listing) -> MarketView {
        MarketView { listings: self.listings.insert(id, l), ..self }
    }

    pub open spec fn with_event(self, e: MarketEvent) -> MarketView {
        MarketView { events: self.events.push(e), ..self }
    }

    /// Minting: a content hash that is already minted gives back the id it has;
    /// otherwise a new NFT owned by `caller` gets the next id, unless the id
    /// counter cannot advance.
    pub open spec fn mint_nft(self, caller: AccountId, content_hash: String) -> (
        MarketView,
        Result<u64, Error>,
    ) {
        match self.id_of_hash(content_hash@) {
            Some(id) => (self, Ok(id)),
            None => if self.next_content_id == u64::MAX {
                (self, Err(Error::CounterOverflow))
            } else {
                (
                    MarketView {
                        contents: self.contents.insert(
                            self.next_content_id,
                            Content { content_hash, owner: caller, approved: None },
                        ),
                        next_content_id: (self.next_content_id + 1) as u64,
                        ..self
                    },
                    Ok(self.next_content_id),
                )
            },
        }
    }

    /// Gives NFT `id` to `new_owner` and clears its approval, with no checks on
    /// who asks.
    pub open spec fn transfer_unchecked(self, id: u64, new_owner: AccountId) -> (
        MarketView,
        Result<(), Error>,
    ) {
        if !self.contents.contains_key(id) {
            (self, Err(Error::ContentNotFound))
        } else {
            (
                self.with_content(
                    id,
                    Content { owner: new_owner, approved: None, ..self.contents[id] },
                ),
                Ok(()),
            )
        }
    }

    /// The seller takes an active listing off the market; the NFT's approval is
    /// cleared.
    pub open spec fn cancel_listing(self, caller: AccountId, id: u64) -> (
        MarketView,
        Result<(), Error>,
    ) {
        if !self.listings.contains_key(id) {
            (self, Err(Error::ListingNotFound))
        } else if caller != self.listings[id].seller {
            (self, Err(Error::NotOwner))
        } else if !self.listings[id].is_active {
            (self, Err(Error::ListingNotActive))
        } else {
            (
                self.with_listing(id, Listing { is_active: false, ..self.listings[id] }).with_content(
                    id,
                    Content { approved: None, ..self.contents[id] },
                ).with_event(MarketEvent::ListingCanceled(ListingCanceled { asset_id: id })),
                Ok(()),
            )
        }
    }

    /// Deactivates the listing of NFT `id`, if it has one (active or not),
    /// and records that it was canceled.
    pub open spec fn delist(self, id: u64) -> MarketView {
        if self.listings.contains_key(id) {
            self.with_listing(id, Listing { is_active: false, ..self.listings[id] }).with_event(
                MarketEvent::ListingCanceled(ListingCanceled { asset_id: id }),
            )
        } else {
            self
        }
    }

    /// The owner, or the account the owner approved, gives NFT `id` to
    /// `new_owner`; a listing of it, if there is one, is deactivated.
    pub open spec fn transfer_ownership(self, caller: AccountId, id: u64, new_owner: AccountId) -> (
        MarketView,
        Result<(), Error>,
    ) {
        if !self.contents.contains_key(id) {
            (self, Err(Error::ContentNotFound))
        } else if caller != self.contents[id].owner && self.contents[id].approved != Some(caller) {
            (self, Err(Error::NotOwner))
        } else {
            self.delist(id).transfer_unchecked(id, new_owner)
        }
    }

    /// The owner of NFT `id` approves `approved` to transfer it.
    pub open spec fn approve(self, caller: AccountId, id: u64, approved: AccountId) -> (
        MarketView,
        Result<(), Error>,
    ) {
        if !self.contents.contains_key(id) {
            (self, Err(Error::ContentNotFound))
        } else if caller != self.contents[id].owner {
            (self, Err(Error::NotOwner))
        } else {
            (self.with_content(id, Content { approved: Some(approved), ..self.contents[id] }), Ok(()))
        }
    }

    /// The owner of NFT `id` lists it at `price`, approving the marketplace
    /// account `contract` to transfer it.
    pub open spec fn list_asset(
        self,
        caller: AccountId,
        contract: AccountId,
        id: u64,
        price: Balance,
    ) -> (MarketView, Result<(), Error>) {
        if price == 0 {
            (self, Err(Error::InvalidPrice))
        } else if !self.contents.contains_key(id) {
            (self, Err(Error::ContentNotFound))
        } else if caller != self.contents[id].owner {
            (self, Err(Error::NotOwner))
        } else if self.is_listed(id) {
            (self, Err(Error::AssetAlreadyListed))
        } else {
            (
                self.with_content(id, Content { approved: Some(contract), ..self.contents[id] }).with_listing(
                    id,
                    Listing { asset_id: id, seller: caller, price, is_active: true },
                ).with_event(
                    MarketEvent::AssetListed(AssetListed { asset_id: id, seller: caller, price }),
                ),
                Ok(()),
            )
        }
    }

    /// `caller`, having sent `transferred`, buys listed NFT `id`: the listing is
    /// deactivated, the NFT changes hands, and the purchase becomes pending
    /// until its payouts are made and it is settled. A purchase that would
    /// otherwise go through is refused when the buyer already owns the NFT, and
    /// then when another purchase still awaits settlement.
    pub open spec fn buy_asset(
        self,
        caller: AccountId,
        contract: AccountId,
        transferred: Balance,
        id: u64,
    ) -> (MarketView, Result<Sale, Error>) {
        if !self.listings.contains_key(id) {
            (self, Err(Error::ListingNotFound))
        } else if !self.listings[id].is_active {
            (self, Err(Error::ListingNotActive))
        } else if self.contents[id].approved != Some(contract) {
            (self, Err(Error::UnauthorizedTransfer))
        } else if transferred < self.listings[id].price {
            (self, Err(Error::InvalidPrice))
        } else if caller == self.contents[id].owner {
            (self, Err(Error::NotOwner))
        } else if self.pending is Some {
            (self, Err(Error::SalePending))
        } else {
            let l = self.listings[id];
            let sale = Sale {
                asset_id: id,
                seller: l.seller,
                buyer: caller,
                price: l.price,
                excess: (transferred - l.price) as u128,
            };
            (
                MarketView {
                    pending: Some(Purchase { sale, made: 0, failed: false }),
                    ..self.with_listing(id, Listing { is_active: false, ..l }).with_content(
                        id,
                        Content { owner: caller, approved: None, ..self.contents[id] },
                    )
                },
                Ok(sale),
            )
        }
    }

    /// The payout to attempt next: the first one of the pending purchase that
    /// has not gone through, as long as none has failed.
    pub open spec fn next_payout(self) -> Option<(AccountId, Balance)> {
        match self.pending {
            Some(p) => if !p.failed && p.made < p.sale.payouts_spec().len() {
                Some(p.sale.payouts_spec()[p.made as int])
            } else {
                None
            },
            None => None,
        }
    }

    /// Records whether the payout `next_payout` asked for went through; when
    /// no payout is asked for, nothing changes.
    pub open spec fn record_payout(self, ok: bool) -> MarketView {
        match self.pending {
            Some(p) => if self.next_payout() is Some {
                if ok {
                    MarketView { pending: Some(Purchase { made: (p.made + 1) as usize, ..p }), ..self }
                } else {
                    MarketView { pending: Some(Purchase { failed: true, ..p }), ..self }
                }
            } else {
                self
            },
            None => self,
        }
    }

    /// Closes the pending purchase: recorded as sold when every payout of its
    /// sale went through, refused with `TransferFailed` otherwise.
    pub open spec fn settle_sale(self) -> (MarketView, Result<(), Error>) {
        match self.pending {
            None => (self, Err(Error::NoSalePending)),
            Some(p) => {
                let closed = MarketView { pending: None, ..self };
                if !p.failed && p.made == p.sale.payouts_spec().len() {
                    (
                        closed.with_event(
                            MarketEvent::AssetSold(
                                AssetSold {
                                    asset_id: p.sale.asset_id,
                                    seller: p.sale.seller,
                                    buyer: p.sale.buyer,
                                    price: p.sale.price,
                                },
                            ),
                        ),
                        Ok(()),
                    )
                } else {
                    (closed, Err(Error::TransferFailed))
                }
            },
        }
    }

    /// The seller changes the price of an active listing.
    pub open spec fn update_listing(self, caller: AccountId, id: u64, new_price: Balance) -> (
        MarketView,
        Result<(), Error>,
    ) {
        if new_price == 0 {
            (self, Err(Error::InvalidPrice))
        } else if !self.listings.contains_key(id) {
            (self, Err(Error::ListingNotFound))
        } else if caller != self.listings[id].seller {
            (self, Err(Error::NotOwner))
        } else if !self.listings[id].is_active {
            (self, Err(Error::ListingNotActive))
        } else {
            (
                self.with_listing(id, Listing { price: new_price, ..self.listings[id] }).with_event(
                    MarketEvent::ListingUpdated(ListingUpdated { asset_id: id, new_price }),
                ),
                Ok(()),
            )
        }
    }
}

/// In a well-formed marketplace a content hash names at most one NFT.
pub proof fn lemma_id_of_hash(s: MarketView, id: u64, h: Seq<char>)
    requires
        s.wf(),
        s.has_hash(id, h),
    ensures
        s.id_of_hash(h) == Some(id),
{
    let other = choose|i: u64| s.has_hash(i, h);
    assert(s.has_hash(other, h));
    assert(s.contents.contains_key(other) && s.contents.contains_key(id));
}

/// A message sent to the marketplace, with everything its outcome depends on.
pub enum Message {
    MintNft { caller: AccountId, content_hash: String },
    CancelListing { caller: AccountId, asset_id: u64 },
    TransferOwnership { caller: AccountId, content_id: u64, new_owner: AccountId },
    Approve { caller: AccountId, asset_id: u64, approved: AccountId },
    ListAsset { caller: AccountId, contract: AccountId, asset_id: u64, price: Balance },
    BuyAsset { caller: AccountId, contract: AccountId, transferred: Balance, asset_id: u64 },
    RecordPayout { ok: bool },
    SettleSale,
    UpdateListing { caller: AccountId, asset_id: u64, new_price: Balance },
}

/// The error of a result, if it is one.
pub open spec fn refusal<T>(r: Result<T, Error>) -> Option<Error> {
    match r {
        Ok(_) => None,
        Err(e) => Some(e),
    }
}

impl MarketView {
    /// The state after message `m`, and the error it was refused with, if any.
    pub open spec fn handle(self, m: Message) -> (MarketView, Option<Error>) {
        match m {
            Message::MintNft { caller, content_hash } => {
                let (t, r) = self.mint_nft(caller, content_hash);
                (t, refusal(r))
            },
            Message::CancelListing { caller, asset_id } => {
                let (t, r) = self.cancel_listing(caller, asset_id);
                (t, refusal(r))
            },
            Message::TransferOwnership { caller, content_id, new_owner } => {
                let (t, r) = self.transfer_ownership(caller, content_id, new_owner);
                (t, refusal(r))
            },
            Message::Approve { caller, asset_id, approved } => {
                let (t, r) = self.approve(caller, asset_id, approved);
                (t, refusal(r))
            },
            Message::ListAsset { caller, contract, asset_id, price } => {
                let (t, r) = self.list_asset(caller, contract, asset_id, price);
                (t, refusal(r))
            },
            Message::BuyAsset { caller, contract, transferred, asset_id } => {
                let (t, r) = self.buy_asset(caller, contract, transferred, asset_id);
                (t, refusal(r))
            },
            Message::RecordPayout { ok } => (self.record_payout(ok), None),
            Message::SettleSale => {
                let (t, r) = self.settle_sale();
                (t, refusal(r))
            },
            Message::UpdateListing { caller, asset_id, new_price } => {
                let (t, r) = self.update_listing(caller, asset_id, new_price);
                (t, refusal(r))
            },
        }
    }

    /// What no message undoes: the administrator stays, every NFT keeps its id
    /// and content hash, a listing once made is kept (active or not), ids are
    /// never handed out again, and the event record only grows.
    pub open spec fn keeps_history_in(self, later: MarketView) -> bool {
        &&& later.admin == self.admin
        &&& forall|id: u64| #[trigger]
            self.contents.contains_key(id) ==> later.contents.contains_key(id)
                && later.contents[id].content_hash == self.contents[id].content_hash
        &&& forall|id: u64| #[trigger]
            self.listings.contains_key(id) ==> later.listings.contains_key(id)
        &&& self.next_content_id <= later.next_content_id
        &&& self.events.is_prefix_of(later.events)
    }
}

/// Message `m` is one that can end an active listing of NFT `id`: canceling
/// that listing, buying that NFT, or transferring it.
pub open spec fn may_end_listing(m: Message, id: u64) -> bool {
    ||| m matches Message::CancelListing { asset_id, .. } && asset_id == id
    ||| m matches Message::BuyAsset { asset_id, .. } && asset_id == id
    ||| m matches Message::TransferOwnership { content_id, .. } && content_id == id
}

/// Message `m` lists NFT `id`.
pub open spec fn lists(m: Message, id: u64) -> bool {
    m matches Message::ListAsset { asset_id, .. } && asset_id == id
}

impl MarketView {
    /// The state after handling the messages `ms` in order.
    pub open spec fn run(self, ms: Seq<Message>) -> MarketView
        decreases ms.len(),
    {
        if ms.len() == 0 {
            self
        } else {
            self.handle(ms[0]).0.run(ms.drop_first())
        }
    }
}

/// Slot `k` of stored parts is consistent: a listing there belongs to NFT
/// `k + 1`, and when active it is offered by that NFT's owner at a nonzero
/// price.
pub open spec fn slot_ok(contents: Seq<Content>, listings: Seq<Option<Listing>>, k: int) -> bool {
    listings[k] matches Some(l) ==> l.asset_id == k + 1 && (l.is_active ==> l.seller
        == contents[k].owner && l.price > 0)
}

/// Stored parts describe a well-formed marketplace: one listing slot per NFT,
/// room for the next id, consistent slots, and distinct content hashes.
pub open spec fn parts_ok(contents: Seq<Content>, listings: Seq<Option<Listing>>) -> bool {
    &&& contents.len() == listings.len()
    &&& contents.len() < u64::MAX
    &&& forall|k: int| 0 <= k < listings.len() ==> #[trigger] slot_ok(contents, listings, k)
    &&& forall|a: int, b: int|
        0 <= a < b < contents.len() ==> #[trigger] contents[a].content_hash@
            != #[trigger] contents[b].content_hash@
}

impl MarketView {
    /// The state held by NFTs `contents` (NFT `id` at index `id - 1`) and the
    /// listing slots `listings` at the same indices, with no events recorded.
    pub open spec fn from_parts(
        admin: AccountId,
        contents: Seq<Content>,
        listings: Seq<Option<Listing>>,
    ) -> MarketView {
        MarketView {
            admin,
            contents: Map::new(|id: u64| 1 <= id <= contents.len(), |id: u64| contents[id - 1]),
            listings: Map::new(
                |id: u64| 1 <= id <= listings.len() && listings[id - 1] is Some,
                |id: u64| listings[id - 1]->0,
            ),
            next_content_id: (contents.len() + 1) as u64,
            events: Seq::empty(),
            pending: None,
        }
    }
}

/// Stored parts of matching length with room for the next id give a
/// well-formed marketplace exactly when they are consistent.
pub proof fn lemma_parts_ok_iff_wf(
    admin: AccountId,
    contents: Seq<Content>,
    listings: Seq<Option<Listing>>,
)
    requires
        contents.len() == listings.len(),
        contents.len() < u64::MAX,
    ensures
        parts_ok(contents, listings) <==> MarketView::from_parts(admin, contents, listings).wf(),
{
    let v = MarketView::from_parts(admin, contents, listings);
    if parts_ok(contents, listings) {
        assert forall|id: u64| #[trigger] v.listings.contains_key(id) implies v.contents.contains_key(
            id,
        ) && v.listings[id].asset_id == id by {
            assert(slot_ok(contents, listings, id - 1));
        }
        assert forall|id: u64| #[trigger]
            v.listings.contains_key(id) && v.listings[id].is_active implies v.listings[id].seller
            == v.contents[id].owner && v.listings[id].price > 0 by {
            assert(slot_ok(contents, listings, id - 1));
        }
        assert forall|a: u64, b: u64|
            #[trigger] v.contents.contains_key(a) && #[trigger] v.contents.contains_key(b)
                && v.contents[a].content_hash@ == v.contents[b].content_hash@ implies a == b by {
            if a < b {
                assert(contents[a - 1].content_hash@ != contents[b - 1].content_hash@);
            } else if b < a {
                assert(contents[b - 1].content_hash@ != contents[a - 1].content_hash@);
            }
        }
    }
    if v.wf() {
        assert forall|k: int| 0 <= k < listings.len() implies #[trigger] slot_ok(
            contents,
            listings,
            k,
        ) by {
            let id = (k + 1) as u64;
            assert(v.listings.contains_key(id) <==> listings[k] is Some);
        }
        assert forall|a: int, b: int| 0 <= a < b < contents.len() implies #[trigger] contents[a].content_hash@
            != #[trigger] contents[b].content_hash@ by {
            let ia = (a + 1) as u64;
            let ib = (b + 1) as u64;
            assert(v.contents.contains_key(ia) && v.contents.contains_key(ib));
        }
    }
}

} // verus!
