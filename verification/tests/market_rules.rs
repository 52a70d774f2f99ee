//! The marketplace's rules on concrete values: each refusal, the laws of
//! minting, listing, transferring and buying, and the payouts of a sale.

use nft_marketplace::{AccountId, Content, Error, Listing, MarketEvent, NFTMarketplace, Sale};

fn acct(byte: u8) -> AccountId {
    AccountId([byte; 32])
}

fn alice() -> AccountId {
    acct(1)
}

fn bob() -> AccountId {
    acct(2)
}

fn charlie() -> AccountId {
    acct(3)
}

fn shop() -> AccountId {
    acct(9)
}

fn market_with_nft() -> (NFTMarketplace, u64) {
    let mut m = NFTMarketplace::new(alice());
    let id = m.mint_nft(alice(), String::from("hash")).unwrap();
    (m, id)
}

#[test]
fn new_with_admin_starts_empty() {
    let m = NFTMarketplace::new(bob());
    assert_eq!(m.admin(), bob());
    assert!(m.get_content(1).is_none());
    assert!(m.get_listing(1).is_none());
    assert!(m.events().is_empty());
}

#[test]
fn default_is_administered_by_zero_account() {
    let m = NFTMarketplace::default();
    assert_eq!(m.admin(), AccountId([0u8; 32]));
}

#[test]
fn mint_hands_out_ids_from_one() {
    let mut m = NFTMarketplace::new(alice());
    assert_eq!(m.mint_nft(alice(), String::from("a")), Ok(1));
    assert_eq!(m.mint_nft(bob(), String::from("b")), Ok(2));
    let second = m.get_content(2).unwrap();
    assert_eq!(second.content_hash, "b");
    assert_eq!(second.owner, bob());
    assert_eq!(second.approved, None);
    assert!(m.get_content(0).is_none());
    assert!(m.get_content(3).is_none());
}

#[test]
fn mint_is_idempotent_by_hash() {
    let mut m = NFTMarketplace::new(alice());
    let first = m.mint_nft(alice(), String::from("same")).unwrap();
    let again = m.mint_nft(bob(), String::from("same")).unwrap();
    assert_eq!(first, again);
    assert_eq!(m.get_content(first).unwrap().owner, alice());
    assert!(m.get_content(first + 1).is_none());
    assert_eq!(m.mint_nft(bob(), String::from("other")), Ok(first + 1));
}

#[test]
fn approve_refusals() {
    let (mut m, id) = market_with_nft();
    assert_eq!(m.approve(alice(), 7, bob()), Err(Error::ContentNotFound));
    assert_eq!(m.approve(bob(), id, bob()), Err(Error::NotOwner));
    assert_eq!(m.get_content(id).unwrap().approved, None);
    assert_eq!(m.approve(alice(), id, bob()), Ok(()));
    assert_eq!(m.get_content(id).unwrap().approved, Some(bob()));
}

#[test]
fn list_refusals() {
    let (mut m, id) = market_with_nft();
    assert_eq!(m.list_asset(alice(), shop(), id, 0), Err(Error::InvalidPrice));
    assert_eq!(m.list_asset(alice(), shop(), 5, 10), Err(Error::ContentNotFound));
    assert_eq!(m.list_asset(bob(), shop(), id, 10), Err(Error::NotOwner));
    assert_eq!(m.list_asset(alice(), shop(), id, 10), Ok(()));
    assert_eq!(m.list_asset(alice(), shop(), id, 20), Err(Error::AssetAlreadyListed));
    assert_eq!(m.get_listing(id).unwrap().price, 10);
}

#[test]
fn listing_approves_the_marketplace_and_records_the_listing() {
    let (mut m, id) = market_with_nft();
    m.list_asset(alice(), shop(), id, 10).unwrap();
    assert_eq!(m.get_content(id).unwrap().approved, Some(shop()));
    let listing = m.get_listing(id).unwrap();
    assert_eq!(listing.asset_id, id);
    assert_eq!(listing.seller, alice());
    assert!(listing.is_active);
    match m.events() {
        [MarketEvent::AssetListed(e)] => {
            assert_eq!((e.asset_id, e.seller, e.price), (id, alice(), 10));
        }
        other => panic!("unexpected events {:?}", other),
    }
}

#[test]
fn cancel_refusals_and_relisting() {
    let (mut m, id) = market_with_nft();
    assert_eq!(m.cancel_listing(alice(), id), Err(Error::ListingNotFound));
    assert_eq!(m.cancel_listing(alice(), 42), Err(Error::ListingNotFound));
    m.list_asset(alice(), shop(), id, 10).unwrap();
    assert_eq!(m.cancel_listing(bob(), id), Err(Error::NotOwner));
    assert_eq!(m.cancel_listing(alice(), id), Ok(()));
    assert_eq!(m.get_content(id).unwrap().approved, None);
    assert_eq!(m.cancel_listing(alice(), id), Err(Error::ListingNotActive));
    assert_eq!(m.list_asset(alice(), shop(), id, 30), Ok(()));
    assert_eq!(m.get_listing(id).unwrap().price, 30);
}

#[test]
fn update_refusals() {
    let (mut m, id) = market_with_nft();
    assert_eq!(m.update_listing(alice(), id, 0), Err(Error::InvalidPrice));
    assert_eq!(m.update_listing(alice(), id, 5), Err(Error::ListingNotFound));
    m.list_asset(alice(), shop(), id, 10).unwrap();
    assert_eq!(m.update_listing(bob(), id, 5), Err(Error::NotOwner));
    assert_eq!(m.update_listing(alice(), id, 5), Ok(()));
    let listing = m.get_listing(id).unwrap();
    assert_eq!((listing.price, listing.seller, listing.is_active), (5, alice(), true));
    m.cancel_listing(alice(), id).unwrap();
    assert_eq!(m.update_listing(alice(), id, 6), Err(Error::ListingNotActive));
}

#[test]
fn transfer_by_owner_approved_and_stranger() {
    let (mut m, id) = market_with_nft();
    assert_eq!(m.transfer_ownership(alice(), 3, bob()), Err(Error::ContentNotFound));
    assert_eq!(m.transfer_ownership(charlie(), id, charlie()), Err(Error::NotOwner));
    m.approve(alice(), id, charlie()).unwrap();
    assert_eq!(m.transfer_ownership(charlie(), id, bob()), Ok(()));
    let content = m.get_content(id).unwrap();
    assert_eq!(content.owner, bob());
    assert_eq!(content.approved, None);
    assert_eq!(m.transfer_ownership(charlie(), id, charlie()), Err(Error::NotOwner));
}

#[test]
fn transfer_deactivates_listing() {
    let (mut m, id) = market_with_nft();
    m.list_asset(alice(), shop(), id, 10).unwrap();
    m.take_events();
    m.transfer_ownership(alice(), id, bob()).unwrap();
    assert!(!m.get_listing(id).unwrap().is_active);
    assert_eq!(m.get_content(id).unwrap().owner, bob());
    match m.events() {
        [MarketEvent::ListingCanceled(e)] => assert_eq!(e.asset_id, id),
        other => panic!("unexpected events {:?}", other),
    }
}

#[test]
fn buy_refusals() {
    let (mut m, id) = market_with_nft();
    assert_eq!(m.buy_asset(bob(), shop(), 100, id).unwrap_err(), Error::ListingNotFound);
    assert_eq!(m.buy_asset(bob(), shop(), 100, 8).unwrap_err(), Error::ListingNotFound);
    m.list_asset(alice(), shop(), id, 10).unwrap();
    assert_eq!(m.buy_asset(alice(), shop(), 100, id).unwrap_err(), Error::NotOwner);
    assert_eq!(m.buy_asset(bob(), charlie(), 100, id).unwrap_err(), Error::UnauthorizedTransfer);
    assert_eq!(m.buy_asset(bob(), shop(), 9, id).unwrap_err(), Error::InvalidPrice);
    m.approve(alice(), id, charlie()).unwrap();
    assert_eq!(m.buy_asset(bob(), shop(), 100, id).unwrap_err(), Error::UnauthorizedTransfer);
    m.cancel_listing(alice(), id).unwrap();
    assert_eq!(m.buy_asset(bob(), shop(), 100, id).unwrap_err(), Error::ListingNotActive);
    assert_eq!(m.get_content(id).unwrap().owner, alice());
}

#[test]
fn list_then_buy_hands_over_the_nft() {
    let (mut m, id) = market_with_nft();
    m.list_asset(alice(), shop(), id, 10).unwrap();
    let sale: Sale = m.buy_asset(bob(), shop(), 25, id).unwrap();
    assert_eq!(sale.asset_id, id);
    assert_eq!(sale.seller, alice());
    assert_eq!(sale.buyer, bob());
    assert_eq!(sale.price, 10);
    assert_eq!(sale.excess, 15);
    assert_eq!(sale.payouts(), vec![(alice(), 10), (bob(), 15)]);
    let content = m.get_content(id).unwrap();
    assert_eq!((content.owner, content.approved), (bob(), None));
    assert!(!m.get_listing(id).unwrap().is_active);
}

#[test]
fn exact_payment_has_no_refund() {
    let (mut m, id) = market_with_nft();
    m.list_asset(alice(), shop(), id, 10).unwrap();
    let sale = m.buy_asset(bob(), shop(), 10, id).unwrap();
    assert_eq!(sale.excess, 0);
    assert_eq!(sale.payouts(), vec![(alice(), 10)]);
}

fn pay_and_settle(m: &mut NFTMarketplace) -> Result<(), Error> {
    while m.next_payout().is_some() {
        m.record_payout(true);
    }
    m.settle_sale()
}

#[test]
fn payouts_are_asked_for_in_order() {
    let (mut m, id) = market_with_nft();
    assert_eq!(m.next_payout(), None);
    m.list_asset(alice(), shop(), id, 10).unwrap();
    m.buy_asset(bob(), shop(), 25, id).unwrap();
    assert_eq!(m.next_payout(), Some((alice(), 10)));
    m.record_payout(true);
    assert_eq!(m.next_payout(), Some((bob(), 15)));
    m.record_payout(true);
    assert_eq!(m.next_payout(), None);
    // With nothing asked for, recording changes nothing.
    m.record_payout(false);
    assert_eq!(m.settle_sale(), Ok(()));
}

#[test]
fn a_failed_payout_stops_the_payouts() {
    let (mut m, id) = market_with_nft();
    m.list_asset(alice(), shop(), id, 10).unwrap();
    m.buy_asset(bob(), shop(), 25, id).unwrap();
    m.record_payout(false);
    assert_eq!(m.next_payout(), None);
    assert_eq!(m.settle_sale(), Err(Error::TransferFailed));
}

#[test]
fn settle_records_only_paid_sales() {
    let (mut m, id) = market_with_nft();
    assert_eq!(m.settle_sale(), Err(Error::NoSalePending));
    m.list_asset(alice(), shop(), id, 10).unwrap();
    m.buy_asset(bob(), shop(), 10, id).unwrap();
    m.take_events();
    assert_eq!(pay_and_settle(&mut m), Ok(()));
    match m.events() {
        [MarketEvent::AssetSold(e)] => {
            assert_eq!((e.asset_id, e.seller, e.buyer, e.price), (id, alice(), bob(), 10));
        }
        other => panic!("unexpected events {:?}", other),
    }
    // A purchase is settled once.
    assert_eq!(m.settle_sale(), Err(Error::NoSalePending));
    assert_eq!(m.events().len(), 1);
}

#[test]
fn an_unsettled_purchase_holds_up_the_next() {
    let mut m = NFTMarketplace::new(alice());
    let first = m.mint_nft(alice(), String::from("one")).unwrap();
    let second = m.mint_nft(alice(), String::from("two")).unwrap();
    m.list_asset(alice(), shop(), first, 10).unwrap();
    m.list_asset(alice(), shop(), second, 10).unwrap();
    m.buy_asset(bob(), shop(), 10, first).unwrap();
    assert_eq!(m.buy_asset(charlie(), shop(), 10, second).unwrap_err(), Error::SalePending);
    assert!(m.get_listing(second).unwrap().is_active);
    pay_and_settle(&mut m).unwrap();
    assert!(m.buy_asset(charlie(), shop(), 10, second).is_ok());
}

#[test]
fn refusal_changes_nothing() {
    let (mut m, id) = market_with_nft();
    m.list_asset(alice(), shop(), id, 10).unwrap();
    let before_content = m.get_content(id).unwrap();
    let before_listing = m.get_listing(id).unwrap();
    let before_events = m.events().len();
    assert!(m.update_listing(bob(), id, 1).is_err());
    assert!(m.cancel_listing(bob(), id).is_err());
    assert!(m.transfer_ownership(bob(), id, bob()).is_err());
    assert!(m.buy_asset(bob(), shop(), 1, id).is_err());
    let after_content = m.get_content(id).unwrap();
    let after_listing = m.get_listing(id).unwrap();
    assert_eq!(after_content.owner, before_content.owner);
    assert_eq!(after_content.approved, before_content.approved);
    assert_eq!(after_listing.price, before_listing.price);
    assert_eq!(after_listing.is_active, before_listing.is_active);
    assert_eq!(m.events().len(), before_events);
}

#[test]
fn take_events_empties_the_record_in_order() {
    let (mut m, id) = market_with_nft();
    m.list_asset(alice(), shop(), id, 10).unwrap();
    m.update_listing(alice(), id, 12).unwrap();
    m.cancel_listing(alice(), id).unwrap();
    let events = m.take_events();
    assert_eq!(events.len(), 3);
    assert!(matches!(events[0], MarketEvent::AssetListed(_)));
    assert!(matches!(events[1], MarketEvent::ListingUpdated(e) if e.new_price == 12));
    assert!(matches!(events[2], MarketEvent::ListingCanceled(_)));
    assert!(m.events().is_empty());
}

#[test]
fn owner_purchase_fails_like_any_other_first() {
    let (mut m, id) = market_with_nft();
    m.list_asset(alice(), shop(), id, 10).unwrap();
    // An unauthorized marketplace account or too little payment is reported
    // before the buyer's ownership.
    assert_eq!(m.buy_asset(alice(), charlie(), 100, id).unwrap_err(), Error::UnauthorizedTransfer);
    assert_eq!(m.buy_asset(alice(), shop(), 9, id).unwrap_err(), Error::InvalidPrice);
    assert_eq!(m.buy_asset(alice(), shop(), 10, id).unwrap_err(), Error::NotOwner);
    assert!(m.get_listing(id).unwrap().is_active);
}

#[test]
fn a_listing_stays_active_until_ended() {
    let (mut m, id) = market_with_nft();
    m.list_asset(alice(), shop(), id, 10).unwrap();
    m.update_listing(alice(), id, 20).unwrap();
    m.approve(alice(), id, charlie()).unwrap();
    m.mint_nft(bob(), String::from("another")).unwrap();
    assert_eq!(m.cancel_listing(bob(), id), Err(Error::NotOwner));
    assert_eq!(m.list_asset(alice(), shop(), id, 30), Err(Error::AssetAlreadyListed));
    assert!(m.get_listing(id).unwrap().is_active);
}

#[test]
fn a_sold_nft_cannot_be_bought_again_until_relisted() {
    let (mut m, id) = market_with_nft();
    m.list_asset(alice(), shop(), id, 10).unwrap();
    m.buy_asset(bob(), shop(), 10, id).unwrap();
    pay_and_settle(&mut m).unwrap();
    assert_eq!(m.buy_asset(charlie(), shop(), 50, id).unwrap_err(), Error::ListingNotActive);
    assert_eq!(m.buy_asset(alice(), shop(), 50, id).unwrap_err(), Error::ListingNotActive);
    m.list_asset(bob(), shop(), id, 40).unwrap();
    let again = m.buy_asset(charlie(), shop(), 50, id).unwrap();
    assert_eq!((again.seller, again.buyer, again.price, again.excess), (bob(), charlie(), 40, 10));
}

#[test]
fn failed_payout_keeps_the_purchase_but_records_no_sale() {
    let (mut m, id) = market_with_nft();
    m.list_asset(alice(), shop(), id, 10).unwrap();
    m.buy_asset(bob(), shop(), 10, id).unwrap();
    m.record_payout(false);
    assert_eq!(m.settle_sale(), Err(Error::TransferFailed));
    assert_eq!(m.get_content(id).unwrap().owner, bob());
    assert!(!m.events().iter().any(|e| matches!(e, MarketEvent::AssetSold(_))));
}

#[test]
fn next_content_id_follows_minting() {
    let mut m = NFTMarketplace::new(alice());
    assert_eq!(m.next_content_id(), 1);
    m.mint_nft(alice(), String::from("x")).unwrap();
    m.mint_nft(alice(), String::from("x")).unwrap();
    assert_eq!(m.next_content_id(), 2);
}

fn content(hash: &str, owner: AccountId) -> Content {
    Content { content_hash: String::from(hash), owner, approved: None }
}

#[test]
fn from_parts_accepts_consistent_parts() {
    let listing = Listing { asset_id: 2, seller: bob(), price: 5, is_active: true };
    let m = NFTMarketplace::from_parts(
        charlie(),
        vec![content("a", alice()), content("b", bob())],
        vec![None, Some(listing)],
    )
    .unwrap();
    assert_eq!(m.admin(), charlie());
    assert_eq!(m.next_content_id(), 3);
    assert_eq!(m.get_content(1).unwrap().owner, alice());
    assert_eq!(m.get_listing(2).unwrap().price, 5);
    assert!(m.get_listing(1).is_none());
    assert!(m.events().is_empty());
}

#[test]
fn from_parts_rejects_inconsistent_parts() {
    let two = || vec![content("a", alice()), content("b", bob())];
    // Lengths differ.
    assert!(NFTMarketplace::from_parts(alice(), two(), vec![None]).is_none());
    // Repeated content hash.
    let dup = vec![content("a", alice()), content("a", bob())];
    assert!(NFTMarketplace::from_parts(alice(), dup, vec![None, None]).is_none());
    // Listing under the wrong id.
    let wrong_id = Listing { asset_id: 1, seller: bob(), price: 5, is_active: false };
    assert!(NFTMarketplace::from_parts(alice(), two(), vec![None, Some(wrong_id)]).is_none());
    // Active listing by someone other than the owner.
    let not_owner = Listing { asset_id: 2, seller: alice(), price: 5, is_active: true };
    assert!(NFTMarketplace::from_parts(alice(), two(), vec![None, Some(not_owner)]).is_none());
    // Active listing at price zero.
    let free = Listing { asset_id: 2, seller: bob(), price: 0, is_active: true };
    assert!(NFTMarketplace::from_parts(alice(), two(), vec![None, Some(free)]).is_none());
    // An inactive listing may keep a zero price and a former seller.
    let old = Listing { asset_id: 2, seller: alice(), price: 0, is_active: false };
    assert!(NFTMarketplace::from_parts(alice(), two(), vec![None, Some(old)]).is_some());
}
