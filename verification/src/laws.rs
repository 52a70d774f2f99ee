use vstd::prelude::*;

use crate::account::{AccountId, Balance};
use crate::model::{lemma_id_of_hash, lists, may_end_listing, MarketView, Message};
use crate::types::{AssetSold, Content, Error, Listing, MarketEvent, Purchase, Sale};

verus! {

/// A new marketplace is well formed.
pub proof fn lemma_initial_wf(admin: AccountId)
    ensures
        MarketView::initial(admin).wf(),
{
}

/// Content hashes stay distinct in a state with the same NFTs and the same
/// hashes as a state where they are distinct.
pub proof fn lemma_same_hashes_stay_unique(s: MarketView, t: MarketView)
    requires
        s.hashes_unique(),
        forall|id: u64| #[trigger]
            t.contents.contains_key(id) ==> s.contents.contains_key(id)
                && t.contents[id].content_hash@ == s.contents[id].content_hash@,
    ensures
        t.hashes_unique(),
{
    assert forall|a: u64, b: u64|
        #[trigger] t.contents.contains_key(a) && #[trigger] t.contents.contains_key(b)
            && t.contents[a].content_hash@ == t.contents[b].content_hash@ implies a == b by {
        assert(s.contents.contains_key(a) && s.contents.contains_key(b));
    }
}

/// Minting keeps the marketplace well formed.
pub proof fn lemma_mint_keeps_wf(s: MarketView, caller: AccountId, content_hash: String)
    requires
        s.wf(),
    ensures
        s.mint_nft(caller, content_hash).0.wf(),
{
    let t = s.mint_nft(caller, content_hash).0;
    if s.id_of_hash(content_hash@) is None && s.next_content_id != u64::MAX {
        assert forall|a: u64, b: u64|
            #[trigger] t.contents.contains_key(a) && #[trigger] t.contents.contains_key(b)
                && t.contents[a].content_hash@ == t.contents[b].content_hash@ implies a == b by {
            if a != b {
                if a == s.next_content_id {
                    assert(s.has_hash(b, content_hash@));
                } else if b == s.next_content_id {
                    assert(s.has_hash(a, content_hash@));
                } else {
                    assert(s.contents.contains_key(a) && s.contents.contains_key(b));
                }
            }
        }
    }
}

/// An unchecked transfer keeps the marketplace well formed when the NFT is not
/// actively listed.
pub proof fn lemma_transfer_unchecked_keeps_wf(s: MarketView, id: u64, new_owner: AccountId)
    requires
        s.wf(),
        !s.is_listed(id),
    ensures
        s.transfer_unchecked(id, new_owner).0.wf(),
{
    lemma_same_hashes_stay_unique(s, s.transfer_unchecked(id, new_owner).0);
}

/// Canceling a listing keeps the marketplace well formed.
pub proof fn lemma_cancel_keeps_wf(s: MarketView, caller: AccountId, id: u64)
    requires
        s.wf(),
    ensures
        s.cancel_listing(caller, id).0.wf(),
{
    lemma_same_hashes_stay_unique(s, s.cancel_listing(caller, id).0);
}

/// Delisting keeps the marketplace well formed and leaves the NFT unlisted.
pub proof fn lemma_delist_keeps_wf(s: MarketView, id: u64)
    requires
        s.wf(),
    ensures
        s.delist(id).wf(),
        !s.delist(id).is_listed(id),
{
    lemma_same_hashes_stay_unique(s, s.delist(id));
}

/// Transferring ownership keeps the marketplace well formed.
pub proof fn lemma_transfer_keeps_wf(s: MarketView, caller: AccountId, id: u64, new_owner: AccountId)
    requires
        s.wf(),
    ensures
        s.transfer_ownership(caller, id, new_owner).0.wf(),
{
    lemma_delist_keeps_wf(s, id);
    lemma_transfer_unchecked_keeps_wf(s.delist(id), id, new_owner);
}

/// Approving keeps the marketplace well formed.
pub proof fn lemma_approve_keeps_wf(s: MarketView, caller: AccountId, id: u64, approved: AccountId)
    requires
        s.wf(),
    ensures
        s.approve(caller, id, approved).0.wf(),
{
    lemma_same_hashes_stay_unique(s, s.approve(caller, id, approved).0);
}

/// Listing keeps the marketplace well formed.
pub proof fn lemma_list_keeps_wf(
    s: MarketView,
    caller: AccountId,
    contract: AccountId,
    id: u64,
    price: Balance,
)
    requires
        s.wf(),
    ensures
        s.list_asset(caller, contract, id, price).0.wf(),
{
    lemma_same_hashes_stay_unique(s, s.list_asset(caller, contract, id, price).0);
}

/// Buying keeps the marketplace well formed.
pub proof fn lemma_buy_keeps_wf(
    s: MarketView,
    caller: AccountId,
    contract: AccountId,
    transferred: Balance,
    id: u64,
)
    requires
        s.wf(),
    ensures
        s.buy_asset(caller, contract, transferred, id).0.wf(),
{
    lemma_same_hashes_stay_unique(s, s.buy_asset(caller, contract, transferred, id).0);
}

/// Recording a payout keeps the marketplace well formed.
pub proof fn lemma_record_payout_keeps_wf(s: MarketView, ok: bool)
    requires
        s.wf(),
    ensures
        s.record_payout(ok).wf(),
{
}

/// Settling the pending purchase keeps the marketplace well formed.
pub proof fn lemma_settle_keeps_wf(s: MarketView)
    requires
        s.wf(),
    ensures
        s.settle_sale().0.wf(),
{
}

/// Updating a listing keeps the marketplace well formed.
pub proof fn lemma_update_keeps_wf(s: MarketView, caller: AccountId, id: u64, new_price: Balance)
    requires
        s.wf(),
    ensures
        s.update_listing(caller, id, new_price).0.wf(),
{
}

/// Every message keeps a well-formed marketplace well formed.
pub proof fn lemma_handle_keeps_wf(s: MarketView, m: Message)
    requires
        s.wf(),
    ensures
        s.handle(m).0.wf(),
{
    match m {
        Message::MintNft { caller, content_hash } => lemma_mint_keeps_wf(s, caller, content_hash),
        Message::CancelListing { caller, asset_id } => lemma_cancel_keeps_wf(s, caller, asset_id),
        Message::TransferOwnership { caller, content_id, new_owner } => lemma_transfer_keeps_wf(
            s,
            caller,
            content_id,
            new_owner,
        ),
        Message::Approve { caller, asset_id, approved } => lemma_approve_keeps_wf(
            s,
            caller,
            asset_id,
            approved,
        ),
        Message::ListAsset { caller, contract, asset_id, price } => lemma_list_keeps_wf(
            s,
            caller,
            contract,
            asset_id,
            price,
        ),
        Message::BuyAsset { caller, contract, transferred, asset_id } => lemma_buy_keeps_wf(
            s,
            caller,
            contract,
            transferred,
            asset_id,
        ),
        Message::RecordPayout { ok } => lemma_record_payout_keeps_wf(s, ok),
        Message::SettleSale => lemma_settle_keeps_wf(s),
        Message::UpdateListing { caller, asset_id, new_price } => lemma_update_keeps_wf(
            s,
            caller,
            asset_id,
            new_price,
        ),
    }
}

/// A refused message leaves the marketplace exactly as it was, except that a
/// settlement refused because a payout failed closes the pending purchase.
pub proof fn lemma_refusal_changes_nothing(s: MarketView, m: Message)
    requires
        s.wf(),
        s.handle(m).1 is Some,
    ensures
        s.handle(m).0 == s || (m is SettleSale && s.handle(m).1 == Some(Error::TransferFailed)
            && s.handle(m).0 == (MarketView { pending: None, ..s })),
{
}

/// No message changes the administrator, removes an NFT or alters its content
/// hash, hands out an id twice, or rewrites recorded events.
pub proof fn lemma_handle_keeps_history(s: MarketView, m: Message)
    requires
        s.wf(),
    ensures
        s.keeps_history_in(s.handle(m).0),
{
    let t = s.handle(m).0;
    match m {
        Message::MintNft { .. } => {},
        Message::CancelListing { .. } => {},
        Message::TransferOwnership { .. } => {},
        Message::Approve { .. } => {},
        Message::ListAsset { .. } => {},
        Message::BuyAsset { .. } => {},
        Message::RecordPayout { .. } => {},
        Message::SettleSale => {},
        Message::UpdateListing { .. } => {},
    }
    assert(s.events.is_prefix_of(t.events)) by {
        assert(s.events =~= t.events.subrange(0, s.events.len() as int));
    }
}

/// Minting is idempotent by content hash: once a hash is minted, minting the
/// same hash again, by anyone, gives back the same id and changes nothing.
pub proof fn lemma_mint_idempotent(
    s: MarketView,
    first_caller: AccountId,
    first_hash: String,
    second_caller: AccountId,
    second_hash: String,
)
    requires
        s.wf(),
        s.mint_nft(first_caller, first_hash).1 is Ok,
        second_hash@ == first_hash@,
    ensures
        ({
            let (t, r) = s.mint_nft(first_caller, first_hash);
            t.mint_nft(second_caller, second_hash) == (t, r)
        }),
{
    let (t, r) = s.mint_nft(first_caller, first_hash);
    lemma_mint_keeps_wf(s, first_caller, first_hash);
    let id = r->Ok_0;
    match s.id_of_hash(first_hash@) {
        Some(old_id) => {
            assert(s.has_hash(old_id, first_hash@));
        },
        None => {},
    }
    assert(t.has_hash(id, second_hash@));
    lemma_id_of_hash(t, id, second_hash@);
}

/// The id that minting gives back names an NFT with the minted content hash;
/// when the hash is new, it is the next id, it was free before, and the NFT is
/// the caller's and approved to no one.
pub proof fn lemma_mint_names_content(s: MarketView, caller: AccountId, content_hash: String)
    requires
        s.wf(),
        s.mint_nft(caller, content_hash).1 is Ok,
    ensures
        ({
            let (t, r) = s.mint_nft(caller, content_hash);
            let id = r->Ok_0;
            &&& t.has_hash(id, content_hash@)
            &&& s.id_of_hash(content_hash@) is None ==> {
                &&& id == s.next_content_id
                &&& !s.contents.contains_key(id)
                &&& t.contents[id] == Content { content_hash, owner: caller, approved: None }
            }
        }),
{
    match s.id_of_hash(content_hash@) {
        Some(old_id) => {
            assert(s.has_hash(old_id, content_hash@));
        },
        None => {},
    }
}

/// An NFT changes hands only when its owner, or the account the owner
/// approved, transfers it, or when it is bought from its active listing through
/// the approved marketplace account with at least the listed price.
pub proof fn lemma_ownership_changes_only_by_right(s: MarketView, m: Message, id: u64)
    requires
        s.wf(),
        s.contents.contains_key(id),
        s.handle(m).0.contents[id].owner != s.contents[id].owner,
    ensures
        (m matches Message::TransferOwnership { caller, content_id, .. } && content_id == id && (
        caller == s.contents[id].owner || s.contents[id].approved == Some(caller)))
            || (m matches Message::BuyAsset { caller, contract, transferred, asset_id } && asset_id
            == id && s.is_listed(id) && caller != s.contents[id].owner && s.contents[id].approved
            == Some(contract) && transferred >= s.listings[id].price),
{
}

/// The approval of an NFT changes only at its owner's request (approving,
/// listing, or canceling its listing), when its owner or approved account
/// transfers it, or when it changes hands.
pub proof fn lemma_approval_changes_only_by_owner(s: MarketView, m: Message, id: u64)
    requires
        s.wf(),
        s.contents.contains_key(id),
        s.handle(m).0.contents[id].approved != s.contents[id].approved,
    ensures
        s.handle(m).0.contents[id].owner != s.contents[id].owner
            || (m matches Message::Approve { caller, asset_id, .. } && asset_id == id && caller
            == s.contents[id].owner) || (m matches Message::ListAsset { caller, asset_id, .. }
            && asset_id == id && caller == s.contents[id].owner) || (
        m matches Message::CancelListing { caller, asset_id } && asset_id == id && caller
            == s.contents[id].owner) || (m matches Message::TransferOwnership {
            caller,
            content_id,
            ..
        } && content_id == id && (caller == s.contents[id].owner || s.contents[id].approved == Some(
            caller,
        ))),
{
    if let Message::CancelListing { caller, asset_id } = m {
        if asset_id == id && s.cancel_listing(caller, asset_id).1 is Ok {
            assert(s.listings.contains_key(id));
        }
    }
}

/// A transfer of ownership leaves the NFT with the new owner, approved to no
/// one and not listed.
pub proof fn lemma_transfer_delists(s: MarketView, caller: AccountId, id: u64, new_owner: AccountId)
    requires
        s.wf(),
        s.transfer_ownership(caller, id, new_owner).1 is Ok,
    ensures
        ({
            let t = s.transfer_ownership(caller, id, new_owner).0;
            &&& t.contents[id].owner == new_owner
            &&& t.contents[id].approved is None
            &&& !t.is_listed(id)
        }),
{
}

/// Canceling a listing leaves the NFT unlisted, approved to no one, and still
/// with its owner.
pub proof fn lemma_cancel_unlists(s: MarketView, caller: AccountId, id: u64)
    requires
        s.wf(),
        s.cancel_listing(caller, id).1 is Ok,
    ensures
        ({
            let t = s.cancel_listing(caller, id).0;
            &&& !t.is_listed(id)
            &&& t.contents[id].approved is None
            &&& t.contents[id].owner == s.contents[id].owner
        }),
{
}

/// The owner of an NFT cannot buy it: a purchase that would otherwise go
/// through is refused with `NotOwner` and changes nothing.
pub proof fn lemma_owner_cannot_buy(
    s: MarketView,
    caller: AccountId,
    contract: AccountId,
    transferred: Balance,
    id: u64,
)
    requires
        s.wf(),
        s.is_listed(id),
        s.contents[id].approved == Some(contract),
        s.listings[id].price <= transferred,
        caller == s.contents[id].owner,
    ensures
        s.buy_asset(caller, contract, transferred, id) == (s, Err::<Sale, Error>(Error::NotOwner)),
{
}

/// A sale hands the NFT to the buyer, who is not the seller, at the listed
/// price, and its payouts give out exactly what the buyer sent: the price to
/// the seller and the rest back to the buyer.
pub proof fn lemma_sale_accounts(
    s: MarketView,
    caller: AccountId,
    contract: AccountId,
    transferred: Balance,
    id: u64,
)
    requires
        s.wf(),
        s.buy_asset(caller, contract, transferred, id).1 is Ok,
    ensures
        ({
            let (t, r) = s.buy_asset(caller, contract, transferred, id);
            let sale = r->Ok_0;
            &&& sale.asset_id == id
            &&& sale.buyer == caller
            &&& sale.seller == s.listings[id].seller
            &&& sale.seller != sale.buyer
            &&& sale.price == s.listings[id].price
            &&& sale.price + sale.excess == transferred
            &&& t.contents[id].owner == caller
            &&& t.contents[id].approved is None
            &&& !t.is_listed(id)
            &&& t.pending == Some(Purchase { sale, made: 0, failed: false })
            &&& t.next_payout() == Some((sale.seller, sale.price))
            &&& sale.payouts_spec()[0] == (sale.seller, sale.price)
            &&& (sale.excess > 0 <==> sale.payouts_spec().len() == 2)
            &&& (sale.excess > 0 ==> sale.payouts_spec()[1] == (sale.buyer, sale.excess))
        }),
{
}

/// Listing an NFT and then buying it through the same marketplace account, as
/// someone else, with at least the price and no other purchase pending,
/// succeeds: the buyer gets the NFT and the seller is owed the listed price.
pub proof fn lemma_list_then_buy(
    s: MarketView,
    seller: AccountId,
    contract: AccountId,
    id: u64,
    price: Balance,
    buyer: AccountId,
    transferred: Balance,
)
    requires
        s.wf(),
        s.list_asset(seller, contract, id, price).1 is Ok,
        s.pending is None,
        buyer != seller,
        price <= transferred,
    ensures
        ({
            let listed = s.list_asset(seller, contract, id, price).0;
            let (bought, r) = listed.buy_asset(buyer, contract, transferred, id);
            &&& r == Ok::<Sale, Error>(
                Sale { asset_id: id, seller, buyer, price, excess: (transferred - price) as u128 },
            )
            &&& bought.contents[id].owner == buyer
        }),
{
}

/// Updating a listing changes its price and nothing else about it, and leaves
/// every NFT as it was.
pub proof fn lemma_update_changes_only_price(
    s: MarketView,
    caller: AccountId,
    id: u64,
    new_price: Balance,
)
    requires
        s.wf(),
        s.update_listing(caller, id, new_price).1 is Ok,
    ensures
        ({
            let t = s.update_listing(caller, id, new_price).0;
            &&& t.listings[id] == Listing { price: new_price, ..s.listings[id] }
            &&& t.is_listed(id)
            &&& t.contents == s.contents
        }),
{
}

/// Settling closes the pending purchase whatever its payouts did, so a
/// purchase is settled at most once: it is recorded as sold exactly when every
/// payout of its sale went through, and nothing else about the marketplace
/// changes.
pub proof fn lemma_settle_closes_purchase(s: MarketView)
    requires
        s.pending is Some,
    ensures
        ({
            let p = s.pending->0;
            let (t, r) = s.settle_sale();
            &&& t.pending is None
            &&& t.settle_sale() == (t, Err::<(), Error>(Error::NoSalePending))
            &&& (r is Ok <==> !p.failed && p.made == p.sale.payouts_spec().len())
            &&& r is Err ==> r == Err::<(), Error>(Error::TransferFailed) && t.events == s.events
            &&& r is Ok ==> t.events == s.events.push(
                MarketEvent::AssetSold(
                    AssetSold {
                        asset_id: p.sale.asset_id,
                        seller: p.sale.seller,
                        buyer: p.sale.buyer,
                        price: p.sale.price,
                    },
                ),
            )
            &&& t.contents == s.contents
            &&& t.listings == s.listings
        }),
{
}

/// A sale is recorded as sold only by settling a pending purchase all of
/// whose payouts went through, and the recorded sale is that purchase's.
pub proof fn lemma_sold_only_after_paid_purchase(s: MarketView, m: Message, e: AssetSold)
    requires
        s.wf(),
        s.handle(m).0.events == s.events.push(MarketEvent::AssetSold(e)),
    ensures
        m is SettleSale,
        s.pending matches Some(p) && !p.failed && p.made == p.sale.payouts_spec().len()
            && e == (AssetSold {
            asset_id: p.sale.asset_id,
            seller: p.sale.seller,
            buyer: p.sale.buyer,
            price: p.sale.price,
        }),
{
    let t = s.handle(m).0;
    assert(t.events.last() == MarketEvent::AssetSold(e));
}

/// Payouts are asked for in the order of the sale's payouts, and once one
/// fails no further payout is asked for.
pub proof fn lemma_payouts_in_order(s: MarketView, ok: bool)
    requires
        s.next_payout() is Some,
    ensures
        s.next_payout() == Some(s.pending->0.sale.payouts_spec()[s.pending->0.made as int]),
        ok ==> s.record_payout(ok).pending->0.made == s.pending->0.made + 1,
        !ok ==> s.record_payout(ok).next_payout() is None,
        !ok ==> s.record_payout(ok).settle_sale().1 == Err::<(), Error>(Error::TransferFailed),
{
}

/// Handling any sequence of messages keeps a well-formed marketplace well
/// formed, and keeps its history.
pub proof fn lemma_run_keeps_wf_and_history(s: MarketView, ms: Seq<Message>)
    requires
        s.wf(),
    ensures
        s.run(ms).wf(),
        s.keeps_history_in(s.run(ms)),
    decreases ms.len(),
{
    if ms.len() > 0 {
        let t = s.handle(ms[0]).0;
        lemma_handle_keeps_wf(s, ms[0]);
        lemma_handle_keeps_history(s, ms[0]);
        lemma_run_keeps_wf_and_history(t, ms.drop_first());
        let u = t.run(ms.drop_first());
        assert(s.events.is_prefix_of(u.events)) by {
            assert(s.events =~= u.events.subrange(0, s.events.len() as int));
        }
    }
}

/// One message ends the active listing of an NFT only by canceling it,
/// buying the NFT, or transferring it, and only when it succeeds.
pub proof fn lemma_listing_ends_only_by(s: MarketView, m: Message, id: u64)
    requires
        s.wf(),
        s.is_listed(id),
        !s.handle(m).0.is_listed(id),
    ensures
        may_end_listing(m, id),
        s.handle(m).1 is None,
{
}

/// One message makes an unlisted NFT listed only by listing it.
pub proof fn lemma_listing_starts_only_by(s: MarketView, m: Message, id: u64)
    requires
        s.wf(),
        !s.is_listed(id),
        s.handle(m).0.is_listed(id),
    ensures
        lists(m, id),
        s.handle(m).1 is None,
{
}

/// A listing stays active through any messages none of which cancels it,
/// buys its NFT or transfers its NFT.
pub proof fn lemma_listing_stays_active(s: MarketView, ms: Seq<Message>, id: u64)
    requires
        s.wf(),
        s.is_listed(id),
        forall|i: int| 0 <= i < ms.len() ==> !may_end_listing(#[trigger] ms[i], id),
    ensures
        s.run(ms).is_listed(id),
    decreases ms.len(),
{
    if ms.len() > 0 {
        assert(!may_end_listing(ms[0], id));
        if !s.handle(ms[0]).0.is_listed(id) {
            lemma_listing_ends_only_by(s, ms[0], id);
        }
        lemma_handle_keeps_wf(s, ms[0]);
        let rest = ms.drop_first();
        assert forall|i: int| 0 <= i < rest.len() implies !may_end_listing(#[trigger] rest[i], id) by {
            assert(rest[i] == ms[i + 1]);
        }
        lemma_listing_stays_active(s.handle(ms[0]).0, rest, id);
    }
}

/// An NFT that is not listed stays unlisted through any messages none of
/// which lists it.
pub proof fn lemma_unlisted_stays_unlisted(s: MarketView, ms: Seq<Message>, id: u64)
    requires
        s.wf(),
        !s.is_listed(id),
        forall|i: int| 0 <= i < ms.len() ==> !lists(#[trigger] ms[i], id),
    ensures
        !s.run(ms).is_listed(id),
    decreases ms.len(),
{
    if ms.len() > 0 {
        assert(!lists(ms[0], id));
        if s.handle(ms[0]).0.is_listed(id) {
            lemma_listing_starts_only_by(s, ms[0], id);
        }
        lemma_handle_keeps_wf(s, ms[0]);
        let rest = ms.drop_first();
        assert forall|i: int| 0 <= i < rest.len() implies !lists(#[trigger] rest[i], id) by {
            assert(rest[i] == ms[i + 1]);
        }
        lemma_unlisted_stays_unlisted(s.handle(ms[0]).0, rest, id);
    }
}

/// An NFT has at most one active listing: once listed, until the listing is
/// canceled, the NFT bought or transferred, its owner's attempt to list it
/// again at a nonzero price is refused with `AssetAlreadyListed` and changes
/// nothing.
pub proof fn lemma_listed_once_until_ended(
    s: MarketView,
    seller: AccountId,
    contract: AccountId,
    id: u64,
    price: Balance,
    ms: Seq<Message>,
    contract2: AccountId,
    price2: Balance,
)
    requires
        s.wf(),
        s.list_asset(seller, contract, id, price).1 is Ok,
        forall|i: int| 0 <= i < ms.len() ==> !may_end_listing(#[trigger] ms[i], id),
        price2 > 0,
    ensures
        ({
            let t = s.list_asset(seller, contract, id, price).0.run(ms);
            t.list_asset(t.contents[id].owner, contract2, id, price2) == (
                t,
                Err::<(), Error>(Error::AssetAlreadyListed),
            )
        }),
{
    let listed = s.list_asset(seller, contract, id, price).0;
    lemma_list_keeps_wf(s, seller, contract, id, price);
    lemma_listing_stays_active(listed, ms, id);
    lemma_run_keeps_wf_and_history(listed, ms);
}

/// An NFT listed once is sold at most once: after a purchase, until it is
/// listed again, every attempt to buy it is refused with `ListingNotActive`
/// and changes nothing.
pub proof fn lemma_sold_once_until_relisted(
    s: MarketView,
    buyer: AccountId,
    contract: AccountId,
    transferred: Balance,
    id: u64,
    ms: Seq<Message>,
    caller2: AccountId,
    contract2: AccountId,
    transferred2: Balance,
)
    requires
        s.wf(),
        s.buy_asset(buyer, contract, transferred, id).1 is Ok,
        forall|i: int| 0 <= i < ms.len() ==> !lists(#[trigger] ms[i], id),
    ensures
        ({
            let t = s.buy_asset(buyer, contract, transferred, id).0.run(ms);
            t.buy_asset(caller2, contract2, transferred2, id) == (
                t,
                Err::<Sale, Error>(Error::ListingNotActive),
            )
        }),
{
    let bought = s.buy_asset(buyer, contract, transferred, id).0;
    lemma_buy_keeps_wf(s, buyer, contract, transferred, id);
    lemma_unlisted_stays_unlisted(bought, ms, id);
    lemma_run_keeps_wf_and_history(bought, ms);
    assert(bought.listings.contains_key(id));
}

/// Minting a content hash that no NFT has, while ids remain, succeeds: the
/// caller gets a new NFT with that hash, approved to no one, under the next id,
/// and the counter moves on by one; nothing else changes.
pub proof fn lemma_mint_new_hash_succeeds(s: MarketView, caller: AccountId, content_hash: String)
    requires
        s.wf(),
        forall|id: u64| s.contents.contains_key(id) ==> s.contents[id].content_hash@
            != content_hash@,
        s.next_content_id < u64::MAX,
    ensures
        ({
            let (t, r) = s.mint_nft(caller, content_hash);
            let id = s.next_content_id;
            &&& r == Ok::<u64, Error>(id)
            &&& !s.contents.contains_key(id)
            &&& t.contents == s.contents.insert(
                id,
                Content { content_hash, owner: caller, approved: None },
            )
            &&& t.next_content_id == id + 1
            &&& t.listings == s.listings
            &&& t.events == s.events
            &&& t.pending == s.pending
            &&& t.admin == s.admin
        }),
{
    assert(!(exists|id: u64| s.has_hash(id, content_hash@)));
}

/// The owner, or the approved account, of an existing NFT can always transfer
/// it, whatever its listing: the new owner has it, approved to no one, and it
/// is not listed; a listing it had is kept, deactivated, and its cancellation
/// recorded.
pub proof fn lemma_owner_or_approved_can_transfer(
    s: MarketView,
    caller: AccountId,
    id: u64,
    new_owner: AccountId,
)
    requires
        s.wf(),
        s.contents.contains_key(id),
        caller == s.contents[id].owner || s.contents[id].approved == Some(caller),
    ensures
        ({
            let (t, r) = s.transfer_ownership(caller, id, new_owner);
            &&& r == Ok::<(), Error>(())
            &&& t.contents == s.contents.insert(
                id,
                Content { owner: new_owner, approved: None, ..s.contents[id] },
            )
            &&& !t.is_listed(id)
            &&& t.listings.dom() == s.listings.dom()
            &&& s.listings.contains_key(id) ==> t.listings[id] == Listing {
                is_active: false,
                ..s.listings[id]
            } && t.events == s.events.push(
                MarketEvent::ListingCanceled(crate::types::ListingCanceled { asset_id: id }),
            )
            &&& !s.listings.contains_key(id) ==> t.listings == s.listings && t.events == s.events
        }),
{
    if s.listings.contains_key(id) {
        assert(s.delist(id).listings.dom() =~= s.listings.dom());
    }
}

/// The owner of an existing NFT can always approve any account for it,
/// whatever its listing: only that NFT's approval changes.
pub proof fn lemma_owner_can_approve(s: MarketView, caller: AccountId, id: u64, approved: AccountId)
    requires
        s.contents.contains_key(id),
        caller == s.contents[id].owner,
    ensures
        ({
            let (t, r) = s.approve(caller, id, approved);
            &&& r == Ok::<(), Error>(())
            &&& t.contents == s.contents.insert(
                id,
                Content { approved: Some(approved), ..s.contents[id] },
            )
            &&& t.listings == s.listings
            &&& t.events == s.events
            &&& t.next_content_id == s.next_content_id
            &&& t.pending == s.pending
        }),
{
}

/// The owner of an existing NFT that is not listed can list it at any nonzero
/// price, whatever its approval: the NFT is then approved to the marketplace
/// account, actively listed by the owner at that price, and the listing is
/// recorded.
pub proof fn lemma_owner_can_list(
    s: MarketView,
    caller: AccountId,
    contract: AccountId,
    id: u64,
    price: Balance,
)
    requires
        s.wf(),
        price > 0,
        s.contents.contains_key(id),
        caller == s.contents[id].owner,
        !s.is_listed(id),
    ensures
        ({
            let (t, r) = s.list_asset(caller, contract, id, price);
            &&& r == Ok::<(), Error>(())
            &&& t.contents == s.contents.insert(
                id,
                Content { approved: Some(contract), ..s.contents[id] },
            )
            &&& t.listings == s.listings.insert(
                id,
                Listing { asset_id: id, seller: caller, price, is_active: true },
            )
            &&& t.events == s.events.push(
                MarketEvent::AssetListed(
                    crate::types::AssetListed { asset_id: id, seller: caller, price },
                ),
            )
        }),
{
}

/// While a pending purchase has no failed payout and has payouts left, the
/// next one is asked for.
pub proof fn lemma_due_payout_is_asked_for(s: MarketView)
    requires
        s.pending matches Some(p) && !p.failed && p.made < p.sale.payouts_spec().len(),
    ensures
        s.next_payout() == Some(s.pending->0.sale.payouts_spec()[s.pending->0.made as int]),
{
}

/// After a purchase, the marketplace asks for the price to be paid to the
/// seller, then for the excess, if any, to be refunded to the buyer, and
/// nothing more; when every payout asked for goes through, settling succeeds
/// and records the sale.
pub proof fn lemma_paid_purchase_settles(
    s: MarketView,
    caller: AccountId,
    contract: AccountId,
    transferred: Balance,
    id: u64,
)
    requires
        s.wf(),
        s.buy_asset(caller, contract, transferred, id).1 is Ok,
    ensures
        ({
            let t = s.buy_asset(caller, contract, transferred, id).0;
            let seller = s.listings[id].seller;
            let price = s.listings[id].price;
            let excess = (transferred - price) as u128;
            let after_first = t.record_payout(true);
            let paid = if excess > 0 {
                after_first.record_payout(true)
            } else {
                after_first
            };
            &&& t.next_payout() == Some((seller, price))
            &&& excess > 0 ==> after_first.next_payout() == Some((caller, excess))
            &&& excess == 0 ==> after_first.next_payout() is None
            &&& paid.next_payout() is None
            &&& paid.settle_sale().1 == Ok::<(), Error>(())
            &&& paid.settle_sale().0.events == s.events.push(
                MarketEvent::AssetSold(
                    AssetSold { asset_id: id, seller, buyer: caller, price },
                ),
            )
            &&& paid.settle_sale().0.pending is None
            &&& paid.settle_sale().0.contents[id].owner == caller
        }),
{
}

/// The seller of an active listing can always cancel it: the listing is kept,
/// deactivated, the NFT stays with its owner, approved to no one, and the
/// cancellation is recorded.
pub proof fn lemma_seller_can_cancel(s: MarketView, caller: AccountId, id: u64)
    requires
        s.wf(),
        s.is_listed(id),
        caller == s.listings[id].seller,
    ensures
        ({
            let (t, r) = s.cancel_listing(caller, id);
            &&& r == Ok::<(), Error>(())
            &&& t.listings == s.listings.insert(id, Listing { is_active: false, ..s.listings[id] })
            &&& t.contents == s.contents.insert(id, Content { approved: None, ..s.contents[id] })
            &&& t.events == s.events.push(
                MarketEvent::ListingCanceled(crate::types::ListingCanceled { asset_id: id }),
            )
        }),
{
}

/// The seller of an active listing can always change its price to any
/// nonzero price: only that price changes, and the change is recorded.
pub proof fn lemma_seller_can_update(s: MarketView, caller: AccountId, id: u64, new_price: Balance)
    requires
        s.wf(),
        s.is_listed(id),
        caller == s.listings[id].seller,
        new_price > 0,
    ensures
        ({
            let (t, r) = s.update_listing(caller, id, new_price);
            &&& r == Ok::<(), Error>(())
            &&& t.listings == s.listings.insert(id, Listing { price: new_price, ..s.listings[id] })
            &&& t.contents == s.contents
            &&& t.events == s.events.push(
                MarketEvent::ListingUpdated(
                    crate::types::ListingUpdated { asset_id: id, new_price },
                ),
            )
        }),
{
}

/// Only the seller of an active listing changes its price, by updating it, or
/// the NFT's owner, by listing it anew.
pub proof fn lemma_price_changes_only_by_seller_or_owner(s: MarketView, m: Message, id: u64)
    requires
        s.wf(),
        s.listings.contains_key(id),
        s.handle(m).0.listings[id].price != s.listings[id].price,
    ensures
        (m matches Message::UpdateListing { caller, asset_id, .. } && asset_id == id && s.is_listed(
            id,
        ) && caller == s.listings[id].seller) || (m matches Message::ListAsset {
            caller,
            asset_id,
            ..
        } && asset_id == id && !s.is_listed(id) && caller == s.contents[id].owner),
{
}

/// Anyone but the owner can buy an actively listed NFT through the approved
/// marketplace account, sending at least the price, when no other purchase is
/// pending: the NFT becomes the buyer's, approved to no one, the listing is
/// deactivated, and the purchase, owing the price to the seller and the rest
/// to the buyer, becomes pending.
pub proof fn lemma_buy_succeeds(
    s: MarketView,
    caller: AccountId,
    contract: AccountId,
    transferred: Balance,
    id: u64,
)
    requires
        s.wf(),
        s.is_listed(id),
        s.contents[id].approved == Some(contract),
        s.listings[id].price <= transferred,
        caller != s.contents[id].owner,
        s.pending is None,
    ensures
        ({
            let (t, r) = s.buy_asset(caller, contract, transferred, id);
            let sale = Sale {
                asset_id: id,
                seller: s.listings[id].seller,
                buyer: caller,
                price: s.listings[id].price,
                excess: (transferred - s.listings[id].price) as u128,
            };
            &&& r == Ok::<Sale, Error>(sale)
            &&& t.contents == s.contents.insert(
                id,
                Content { owner: caller, approved: None, ..s.contents[id] },
            )
            &&& t.listings == s.listings.insert(id, Listing { is_active: false, ..s.listings[id] })
            &&& t.pending == Some(Purchase { sale, made: 0, failed: false })
            &&& t.events == s.events
        }),
{
}

} // verus!
