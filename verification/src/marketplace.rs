use vstd::prelude::*;

use crate::account::{AccountId, Balance};
use crate::laws::{
    lemma_approve_keeps_wf, lemma_buy_keeps_wf, lemma_cancel_keeps_wf, lemma_delist_keeps_wf,
    lemma_initial_wf, lemma_list_keeps_wf, lemma_mint_keeps_wf, lemma_record_payout_keeps_wf,
    lemma_settle_keeps_wf,
    lemma_transfer_keeps_wf, lemma_transfer_unchecked_keeps_wf, lemma_update_keeps_wf,
};
use crate::model::{lemma_id_of_hash, lemma_parts_ok_iff_wf, parts_ok, slot_ok, MarketView};
use crate::types::{
    AssetListed, AssetSold, Content, Error, Listing, ListingCanceled, ListingUpdated, MarketEvent,
    Purchase, Sale,
};

verus! {

/// An NFT marketplace: minting, approvals, transfers, listings and sales.
///
/// NFT `id` is kept at index `id - 1` of `contents`, and its listing, if any,
/// at the same index of `listings`; ids are handed out from 1 upwards.
pub struct NFTMarketplace {
    admin: AccountId,
    contents: Vec<Content>,
    listings: Vec<Option<Listing>>,
    next_content_id: u64,
    events: Vec<MarketEvent>,
    pending: Option<Purchase>,
}

impl View for NFTMarketplace {
    type V = MarketView;

    closed spec fn view(&self) -> MarketView {
        MarketView {
            admin: self.admin,
            contents: Map::new(
                |id: u64| 1 <= id <= self.contents@.len(),
                |id: u64| self.contents@[id - 1],
            ),
            listings: Map::new(
                |id: u64| 1 <= id <= self.listings@.len() && self.listings@[id - 1] is Some,
                |id: u64| self.listings@[id - 1]->0,
            ),
            next_content_id: self.next_content_id,
            events: self.events@,
            pending: self.pending,
        }
    }
}

impl NFTMarketplace {
    /// The layout of the representation: one listing slot per NFT, and the
    /// next id follows the last NFT.
    pub closed spec fn layout(&self) -> bool {
        &&& self.listings@.len() == self.contents@.len()
        &&& self.next_content_id == self.contents@.len() + 1
    }

    /// The representation is laid out right, and the abstract state satisfies
    /// the marketplace invariant.
    pub closed spec fn wf(&self) -> bool {
        &&& self.layout()
        &&& self@.wf()
    }

    /// A well-formed marketplace has a well-formed abstract state, so every law
    /// of `MarketView` applies to it.
    pub proof fn lemma_view_wf(&self)
        requires
            self.wf(),
        ensures
            self@.wf(),
    {
    }

    /// The id the next newly minted NFT gets.
    pub fn next_content_id(&self) -> (r: u64)
        ensures
            r == self@.next_content_id,
    {
        self.next_content_id
    }

    /// A marketplace administered by `admin`, with no NFTs, listings or events.
    pub fn new(admin: AccountId) -> (r: Self)
        ensures
            r.wf(),
            r@ == MarketView::initial(admin),
    {
        let r = NFTMarketplace {
            admin,
            contents: Vec::new(),
            listings: Vec::new(),
            next_content_id: 1,
            events: Vec::new(),
            pending: None,
        };
        proof {
            assert(r@ =~= MarketView::initial(admin));
            lemma_initial_wf(admin);
        }
        r
    }

    /// A marketplace administered by `admin` that holds the NFTs `contents`
    /// (NFT `id` at index `id - 1`) and the listing slots `listings` at the same
    /// indices, with no events recorded; `None` when these do not make a
    /// well-formed marketplace.
    pub fn from_parts(admin: AccountId, contents: Vec<Content>, listings: Vec<Option<Listing>>) -> (r:
        Option<Self>)
        ensures
            r is Some <==> parts_ok(contents@, listings@),
            r matches Some(m) ==> m.wf() && m@ == MarketView::from_parts(
                admin,
                contents@,
                listings@,
            ),
    {
        let n = contents.len();
        if listings.len() != n {
            return None;
        }
        if n as u64 == u64::MAX {
            return None;
        }
        let mut k: usize = 0;
        while k < n
            invariant
                n == contents@.len(),
                n == listings@.len(),
                k <= n,
                forall|j: int| 0 <= j < k ==> #[trigger] slot_ok(contents@, listings@, j),
            decreases n - k,
        {
            match listings[k] {
                Some(l) => {
                    if l.asset_id != (k + 1) as u64 {
                        assert(!slot_ok(contents@, listings@, k as int));
                        return None;
                    }
                    if l.is_active && (l.seller != contents[k].owner || l.price == 0) {
                        assert(!slot_ok(contents@, listings@, k as int));
                        return None;
                    }
                },
                None => {},
            }
            assert(slot_ok(contents@, listings@, k as int));
            k = k + 1;
        }
        let mut a: usize = 0;
        while a < n
            invariant
                n == contents@.len(),
                a <= n,
                forall|x: int, y: int|
                    0 <= x < a && x < y < n ==> #[trigger] contents@[x].content_hash@
                        != #[trigger] contents@[y].content_hash@,
            decreases n - a,
        {
            let mut b: usize = a + 1;
            while b < n
                invariant
                    n == contents@.len(),
                    a < n,
                    a < b <= n,
                    forall|x: int, y: int|
                        0 <= x < a && x < y < n ==> #[trigger] contents@[x].content_hash@
                            != #[trigger] contents@[y].content_hash@,
                    forall|y: int|
                        a < y < b ==> contents@[a as int].content_hash@
                            != #[trigger] contents@[y].content_hash@,
                decreases n - b,
            {
                if contents[a].content_hash == contents[b].content_hash {
                    return None;
                }
                b = b + 1;
            }
            a = a + 1;
        }
        let m = NFTMarketplace {
            admin,
            contents,
            listings,
            next_content_id: (n as u64) + 1,
            events: Vec::new(),
            pending: None,
        };
        proof {
            assert(parts_ok(m.contents@, m.listings@));
            lemma_parts_ok_iff_wf(admin, m.contents@, m.listings@);
            assert(m@ =~= MarketView::from_parts(admin, m.contents@, m.listings@));
        }
        Some(m)
    }

    /// The administrator.
    pub fn admin(&self) -> (r: AccountId)
        ensures
            r == self@.admin,
    {
        self.admin
    }

    /// The index at which NFT `id` is kept, if it exists.
    fn index_of(&self, id: u64) -> (r: Option<usize>)
        ensures
            match r {
                Some(i) => self@.contents.contains_key(id) && i == id - 1 && i
                    < self.contents@.len(),
                None => !self@.contents.contains_key(id),
            },
    {
        let len = self.contents.len() as u64;
        if 1 <= id && id <= len {
            Some((id - 1) as usize)
        } else {
            None
        }
    }

    /// Mints an NFT with content hash `content_hash` for `caller`. A hash that
    /// is already minted gives back its id and changes nothing.
    pub fn mint_nft(&mut self, caller: AccountId, content_hash: String) -> (r: Result<u64, Error>)
        requires
            old(self).wf(),
        ensures
            final(self).wf(),
            (final(self)@, r) == old(self)@.mint_nft(caller, content_hash),
    {
        let n = self.contents.len();
        let mut i: usize = 0;
        while i < n
            invariant
                *self == *old(self),
                self.wf(),
                n == self.contents@.len(),
                i <= n,
                forall|k: int| 0 <= k < i ==> self.contents@[k].content_hash@ != content_hash@,
            decreases n - i,
        {
            if self.contents[i].content_hash == content_hash {
                proof {
                    let id = (i + 1) as u64;
                    assert(self@.has_hash(id, content_hash@));
                    lemma_id_of_hash(self@, id, content_hash@);
                }
                return Ok((i + 1) as u64);
            }
            i = i + 1;
        }
        proof {
            assert forall|id: u64| !self@.has_hash(id, content_hash@) by {
                if self@.contents.contains_key(id) {
                    assert(self.contents@[id - 1].content_hash@ != content_hash@);
                }
            }
            lemma_mint_keeps_wf(self@, caller, content_hash);
        }
        let content_id = self.next_content_id;
        let next = match content_id.checked_add(1) {
            Some(v) => v,
            None => {
                return Err(Error::CounterOverflow);
            },
        };
        let ghost new_content = Content { content_hash, owner: caller, approved: None };
        self.next_content_id = next;
        self.contents.push(Content { content_hash, owner: caller, approved: None });
        self.listings.push(None);
        proof {
            assert(self@.contents =~= old(self)@.contents.insert(content_id, new_content));
            assert(self@.listings =~= old(self)@.listings);
            assert(self@ =~= old(self)@.mint_nft(caller, content_hash).0);
        }
        Ok(content_id)
    }

    /// Gives NFT `asset_id` to `new_owner` and clears its approval, without
    /// asking who may do so and whether it is listed. The marketplace
    /// invariant survives when the NFT is not actively listed.
    fn _transfer_ownership(&mut self, asset_id: u64, new_owner: AccountId) -> (r: Result<(), Error>)
        requires
            old(self).layout(),
        ensures
            final(self).layout(),
            (final(self)@, r) == old(self)@.transfer_unchecked(asset_id, new_owner),
            old(self).wf() && !old(self)@.is_listed(asset_id) ==> final(self).wf(),
    {
        let i = match self.index_of(asset_id) {
            Some(i) => i,
            None => {
                return Err(Error::ContentNotFound);
            },
        };
        proof {
            if self.wf() && !self@.is_listed(asset_id) {
                lemma_transfer_unchecked_keeps_wf(self@, asset_id, new_owner);
            }
        }
        let ghost c = self.contents@[i as int];
        self.contents[i].owner = new_owner;
        self.contents[i].approved = None;
        proof {
            assert(self@.contents =~= old(self)@.contents.insert(
                asset_id,
                Content { owner: new_owner, approved: None, ..c },
            ));
            assert(self@.listings =~= old(self)@.listings);
            assert(self@ =~= old(self)@.transfer_unchecked(asset_id, new_owner).0);
        }
        Ok(())
    }

    /// `caller` cancels the active listing of NFT `asset_id`, which it offered;
    /// the NFT's approval is cleared.
    pub fn cancel_listing(&mut self, caller: AccountId, asset_id: u64) -> (r: Result<(), Error>)
        requires
            old(self).wf(),
        ensures
            final(self).wf(),
            (final(self)@, r) == old(self)@.cancel_listing(caller, asset_id),
    {
        proof {
            lemma_cancel_keeps_wf(self@, caller, asset_id);
        }
        let i = match self.index_of(asset_id) {
            Some(i) => i,
            None => {
                return Err(Error::ListingNotFound);
            },
        };
        let listing = match self.listings[i] {
            Some(l) => l,
            None => {
                return Err(Error::ListingNotFound);
            },
        };
        if caller != listing.seller {
            return Err(Error::NotOwner);
        }
        if !listing.is_active {
            return Err(Error::ListingNotActive);
        }
        let ghost c = self.contents@[i as int];
        self.listings.set(i, Some(Listing { is_active: false, ..listing }));
        self.contents[i].approved = None;
        self.events.push(MarketEvent::ListingCanceled(ListingCanceled { asset_id }));
        proof {
            assert(self@.contents =~= old(self)@.contents.insert(
                asset_id,
                Content { approved: None, ..c },
            ));
            assert(self@.listings =~= old(self)@.listings.insert(
                asset_id,
                Listing { is_active: false, ..listing },
            ));
            assert(self@ =~= old(self)@.cancel_listing(caller, asset_id).0);
        }
        Ok(())
    }

    /// `caller`, the owner of NFT `content_id` or the account the owner
    /// approved, gives it to `new_owner`; a listing of it is deactivated.
    pub fn transfer_ownership(
        &mut self,
        caller: AccountId,
        content_id: u64,
        new_owner: AccountId,
    ) -> (r: Result<(), Error>)
        requires
            old(self).wf(),
        ensures
            final(self).wf(),
            (final(self)@, r) == old(self)@.transfer_ownership(caller, content_id, new_owner),
    {
        proof {
            lemma_transfer_keeps_wf(self@, caller, content_id, new_owner);
            lemma_delist_keeps_wf(self@, content_id);
        }
        let i = match self.index_of(content_id) {
            Some(i) => i,
            None => {
                return Err(Error::ContentNotFound);
            },
        };
        let owner = self.contents[i].owner;
        let is_approved = match self.contents[i].approved {
            Some(a) => a == caller,
            None => false,
        };
        if caller != owner && !is_approved {
            return Err(Error::NotOwner);
        }
        match self.listings[i] {
            Some(listing) => {
                self.listings.set(i, Some(Listing { is_active: false, ..listing }));
                self.events.push(
                    MarketEvent::ListingCanceled(ListingCanceled { asset_id: content_id }),
                );
                proof {
                    assert(self@.contents =~= old(self)@.contents);
                    assert(self@.listings =~= old(self)@.listings.insert(
                        content_id,
                        Listing { is_active: false, ..listing },
                    ));
                }
            },
            None => {},
        }
        proof {
            assert(self@ =~= old(self)@.delist(content_id));
        }
        self._transfer_ownership(content_id, new_owner)
    }

    /// `caller`, the owner of NFT `asset_id`, approves `approved` to transfer it.
    pub fn approve(&mut self, caller: AccountId, asset_id: u64, approved: AccountId) -> (r:
        Result<(), Error>)
        requires
            old(self).wf(),
        ensures
            final(self).wf(),
            (final(self)@, r) == old(self)@.approve(caller, asset_id, approved),
    {
        proof {
            lemma_approve_keeps_wf(self@, caller, asset_id, approved);
        }
        let i = match self.index_of(asset_id) {
            Some(i) => i,
            None => {
                return Err(Error::ContentNotFound);
            },
        };
        if caller != self.contents[i].owner {
            return Err(Error::NotOwner);
        }
        let ghost c = self.contents@[i as int];
        self.contents[i].approved = Some(approved);
        proof {
            assert(self@.contents =~= old(self)@.contents.insert(
                asset_id,
                Content { approved: Some(approved), ..c },
            ));
            assert(self@.listings =~= old(self)@.listings);
            assert(self@ =~= old(self)@.approve(caller, asset_id, approved).0);
        }
        Ok(())
    }

    /// `caller`, the owner of NFT `asset_id`, lists it at `price`, approving the
    /// marketplace account `contract` to hand it to a buyer.
    pub fn list_asset(
        &mut self,
        caller: AccountId,
        contract: AccountId,
        asset_id: u64,
        price: Balance,
    ) -> (r: Result<(), Error>)
        requires
            old(self).wf(),
        ensures
            final(self).wf(),
            (final(self)@, r) == old(self)@.list_asset(caller, contract, asset_id, price),
    {
        proof {
            lemma_list_keeps_wf(self@, caller, contract, asset_id, price);
        }
        if price == 0 {
            return Err(Error::InvalidPrice);
        }
        let i = match self.index_of(asset_id) {
            Some(i) => i,
            None => {
                return Err(Error::ContentNotFound);
            },
        };
        if caller != self.contents[i].owner {
            return Err(Error::NotOwner);
        }
        match self.listings[i] {
            Some(existing) => {
                if existing.is_active {
                    return Err(Error::AssetAlreadyListed);
                }
            },
            None => {},
        }
        let ghost approved_state = old(self)@.approve(caller, asset_id, contract).0;
        match self.approve(caller, asset_id, contract) {
            Ok(()) => {},
            Err(e) => {
                return Err(e);
            },
        }
        let listing = Listing { asset_id, seller: caller, price, is_active: true };
        self.listings.set(i, Some(listing));
        self.events.push(MarketEvent::AssetListed(AssetListed { asset_id, seller: caller, price }));
        proof {
            assert(self@.contents =~= approved_state.contents);
            assert(self@.listings =~= approved_state.listings.insert(asset_id, listing));
            assert(self@ =~= old(self)@.list_asset(caller, contract, asset_id, price).0);
        }
        Ok(())
    }

    /// `caller`, having sent `transferred`, buys the listed NFT `asset_id` from
    /// its seller through the marketplace account `contract`. On success the
    /// listing is deactivated, the NFT is the buyer's, and the returned sale says
    /// what is still to be paid out. The owner of the NFT cannot buy it.
    pub fn buy_asset(
        &mut self,
        caller: AccountId,
        contract: AccountId,
        transferred: Balance,
        asset_id: u64,
    ) -> (r: Result<Sale, Error>)
        requires
            old(self).wf(),
        ensures
            final(self).wf(),
            (final(self)@, r) == old(self)@.buy_asset(caller, contract, transferred, asset_id),
    {
        proof {
            lemma_buy_keeps_wf(self@, caller, contract, transferred, asset_id);
        }
        let i = match self.index_of(asset_id) {
            Some(i) => i,
            None => {
                return Err(Error::ListingNotFound);
            },
        };
        let listing = match self.listings[i] {
            Some(l) => l,
            None => {
                return Err(Error::ListingNotFound);
            },
        };
        if !listing.is_active {
            return Err(Error::ListingNotActive);
        }
        let authorized = match self.contents[i].approved {
            Some(a) => a == contract,
            None => false,
        };
        if !authorized {
            return Err(Error::UnauthorizedTransfer);
        }
        if transferred < listing.price {
            return Err(Error::InvalidPrice);
        }
        if caller == self.contents[i].owner {
            return Err(Error::NotOwner);
        }
        if self.pending.is_some() {
            return Err(Error::SalePending);
        }
        let inactive = Listing { is_active: false, ..listing };
        self.listings.set(i, Some(inactive));
        proof {
            assert(self@.contents =~= old(self)@.contents);
            assert(self@.listings =~= old(self)@.listings.insert(asset_id, inactive));
            assert(self@ =~= old(self)@.with_listing(asset_id, inactive));
            assert(!self@.is_listed(asset_id));
            lemma_delist_keeps_wf(old(self)@, asset_id);
            assert(self@.wf());
        }
        match self._transfer_ownership(asset_id, caller) {
            Ok(()) => {},
            Err(e) => {
                return Err(e);
            },
        }
        let excess = match transferred.checked_sub(listing.price) {
            Some(e) => e,
            None => {
                return Err(Error::TransferFailed);
            },
        };
        let sale = Sale { asset_id, seller: listing.seller, buyer: caller, price: listing.price, excess };
        self.pending = Some(Purchase { sale, made: 0, failed: false });
        proof {
            assert(self@ =~= old(self)@.buy_asset(caller, contract, transferred, asset_id).0);
        }
        Ok(sale)
    }

    /// The payout to attempt next for the pending purchase: the first of its
    /// sale's payouts that has not gone through, as long as none has failed.
    pub fn next_payout(&self) -> (r: Option<(AccountId, Balance)>)
        requires
            self.wf(),
        ensures
            r == self@.next_payout(),
    {
        match self.pending {
            Some(p) => {
                let payouts = p.sale.payouts();
                if !p.failed && p.made < payouts.len() {
                    Some(payouts[p.made])
                } else {
                    None
                }
            },
            None => None,
        }
    }

    /// Records whether the payout that `next_payout` asked for went through.
    pub fn record_payout(&mut self, ok: bool)
        requires
            old(self).wf(),
        ensures
            final(self).wf(),
            final(self)@ == old(self)@.record_payout(ok),
    {
        proof {
            lemma_record_payout_keeps_wf(self@, ok);
        }
        if let Some(p) = self.pending {
            let payouts = p.sale.payouts();
            if !p.failed && p.made < payouts.len() {
                if ok {
                    self.pending = Some(Purchase { made: p.made + 1, ..p });
                } else {
                    self.pending = Some(Purchase { failed: true, ..p });
                }
            }
        }
        proof {
            assert(self@ =~= old(self)@.record_payout(ok));
        }
    }

    /// Closes the pending purchase: when every payout of its sale went through
    /// the sale is recorded as sold, otherwise the purchase fails with
    /// `TransferFailed`; with no purchase pending it is refused with
    /// `NoSalePending`.
    pub fn settle_sale(&mut self) -> (r: Result<(), Error>)
        requires
            old(self).wf(),
        ensures
            final(self).wf(),
            (final(self)@, r) == old(self)@.settle_sale(),
    {
        proof {
            lemma_settle_keeps_wf(self@);
        }
        let p = match self.pending {
            Some(p) => p,
            None => {
                return Err(Error::NoSalePending);
            },
        };
        self.pending = None;
        let payouts = p.sale.payouts();
        let r = if !p.failed && p.made == payouts.len() {
            self.events.push(
                MarketEvent::AssetSold(
                    AssetSold {
                        asset_id: p.sale.asset_id,
                        seller: p.sale.seller,
                        buyer: p.sale.buyer,
                        price: p.sale.price,
                    },
                ),
            );
            Ok(())
        } else {
            Err(Error::TransferFailed)
        };
        proof {
            assert(self@.contents =~= old(self)@.contents);
            assert(self@.listings =~= old(self)@.listings);
            assert(self@ =~= old(self)@.settle_sale().0);
        }
        r
    }

    /// `caller`, the seller of the active listing of NFT `asset_id`, changes its
    /// price to `new_price`.
    pub fn update_listing(&mut self, caller: AccountId, asset_id: u64, new_price: Balance) -> (r:
        Result<(), Error>)
        requires
            old(self).wf(),
        ensures
            final(self).wf(),
            (final(self)@, r) == old(self)@.update_listing(caller, asset_id, new_price),
    {
        proof {
            lemma_update_keeps_wf(self@, caller, asset_id, new_price);
        }
        if new_price == 0 {
            return Err(Error::InvalidPrice);
        }
        let i = match self.index_of(asset_id) {
            Some(i) => i,
            None => {
                return Err(Error::ListingNotFound);
            },
        };
        let listing = match self.listings[i] {
            Some(l) => l,
            None => {
                return Err(Error::ListingNotFound);
            },
        };
        if caller != listing.seller {
            return Err(Error::NotOwner);
        }
        if !listing.is_active {
            return Err(Error::ListingNotActive);
        }
        let updated = Listing { price: new_price, ..listing };
        self.listings.set(i, Some(updated));
        self.events.push(MarketEvent::ListingUpdated(ListingUpdated { asset_id, new_price }));
        proof {
            assert(self@.contents =~= old(self)@.contents);
            assert(self@.listings =~= old(self)@.listings.insert(asset_id, updated));
            assert(self@ =~= old(self)@.update_listing(caller, asset_id, new_price).0);
        }
        Ok(())
    }

    /// NFT `asset_id`, if it exists.
    pub fn get_content(&self, asset_id: u64) -> (r: Option<Content>)
        ensures
            r == (if self@.contents.contains_key(asset_id) {
                Some(self@.contents[asset_id])
            } else {
                None::<Content>
            }),
    {
        match self.index_of(asset_id) {
            Some(i) => Some(self.contents[i].clone()),
            None => None,
        }
    }

    /// The listing of NFT `asset_id`, active or not, if it has one.
    pub fn get_listing(&self, asset_id: u64) -> (r: Option<Listing>)
        ensures
            r == (if self@.listings.contains_key(asset_id) {
                Some(self@.listings[asset_id])
            } else {
                None::<Listing>
            }),
    {
        let len = self.listings.len() as u64;
        if 1 <= asset_id && asset_id <= len {
            self.listings[(asset_id - 1) as usize]
        } else {
            None
        }
    }

    /// The events recorded so far, oldest first.
    pub fn events(&self) -> (r: &[MarketEvent])
        ensures
            r@ == self@.events,
    {
        self.events.as_slice()
    }

    /// Hands over the events recorded so far, oldest first, and forgets them.
    pub fn take_events(&mut self) -> (r: Vec<MarketEvent>)
        requires
            old(self).wf(),
        ensures
            final(self).wf(),
            r@ == old(self)@.events,
            final(self)@ == (MarketView { events: Seq::empty(), ..old(self)@ }),
    {
        let mut taken: Vec<MarketEvent> = Vec::new();
        core::mem::swap(&mut taken, &mut self.events);
        proof {
            assert(self@.contents =~= old(self)@.contents);
            assert(self@.listings =~= old(self)@.listings);
            assert(self@ =~= (MarketView { events: Seq::empty(), ..old(self)@ }));
        }
        taken
    }
}

impl Default for NFTMarketplace {
    /// A marketplace administered by the all-zero account.
    fn default() -> (r: Self)
        ensures
            r.wf(),
            r@ == MarketView::initial(r@.admin),
            r@.admin.0@ == Seq::new(32, |i: int| 0u8),
    {
        Self::new(AccountId([0u8; 32]))
    }
}

} // verus!
