//! The marketplace's scenarios. The accounts are those of ink!'s test
//! environment: Alice deploys the marketplace and is its own account as well,
//! Bob is the counterparty and Charlie an unauthorized third party.

use nft_marketplace::{AccountId, Error, NFTMarketplace};

struct Accounts {
    alice: AccountId,
    bob: AccountId,
    charlie: AccountId,
}

fn default_accounts() -> Accounts {
    Accounts {
        alice: AccountId([0x01; 32]),
        bob: AccountId([0x02; 32]),
        charlie: AccountId([0x03; 32]),
    }
}

/// Makes every payout of the pending purchase, all of them going through, and
/// settles it.
fn pay_and_settle(marketplace: &mut NFTMarketplace) -> Result<(), Error> {
    while marketplace.next_payout().is_some() {
        marketplace.record_payout(true);
    }
    marketplace.settle_sale()
}

#[test]
fn test_new_contract() {
    let accounts = default_accounts();
    let marketplace = NFTMarketplace::new(accounts.alice);

    assert_eq!(marketplace.admin(), accounts.alice);
}

#[test]
fn test_mint_nft() {
    let accounts = default_accounts();
    let mut marketplace = NFTMarketplace::new(accounts.alice);
    let content_hash = String::from("unique_hash");

    let result = marketplace.mint_nft(accounts.alice, content_hash.clone());
    assert!(result.is_ok());
    let content_id = result.unwrap();

    let content = marketplace.get_content(content_id);
    assert!(content.is_some());
    assert_eq!(content.unwrap().content_hash, content_hash);
}

#[test]
fn test_list_asset() {
    let accounts = default_accounts();
    let mut marketplace = NFTMarketplace::new(accounts.alice);
    let content_hash = String::from("unique_hash");

    let content_id = marketplace.mint_nft(accounts.alice, content_hash).unwrap();
    let price = 100;

    let result = marketplace.list_asset(accounts.alice, accounts.alice, content_id, price);
    assert!(result.is_ok());

    let listing = marketplace.get_listing(content_id);
    assert!(listing.is_some());
    let listing = listing.unwrap();
    assert_eq!(listing.price, price);
    assert_eq!(listing.seller, accounts.alice);
    assert!(listing.is_active);
}

#[test]
fn test_cancel_listing() {
    let accounts = default_accounts();
    let mut marketplace = NFTMarketplace::new(accounts.alice);
    let content_hash = String::from("unique_hash");

    let content_id = marketplace.mint_nft(accounts.alice, content_hash).unwrap();
    marketplace.list_asset(accounts.alice, accounts.alice, content_id, 100).unwrap();

    let result = marketplace.cancel_listing(accounts.alice, content_id);
    assert!(result.is_ok());

    let listing = marketplace.get_listing(content_id);
    assert!(listing.is_some());
    assert!(!listing.unwrap().is_active);
}

#[test]
fn test_buy_asset() {
    let accounts = default_accounts();
    let mut marketplace = NFTMarketplace::new(accounts.alice);
    let content_hash = String::from("unique_hash");

    let content_id = marketplace.mint_nft(accounts.alice, content_hash).unwrap();
    marketplace.list_asset(accounts.alice, accounts.alice, content_id, 100).unwrap();

    // Bob buys, sending 100; every payout of the sale goes through.
    let result = marketplace
        .buy_asset(accounts.bob, accounts.alice, 100, content_id)
        .and_then(|_sale| pay_and_settle(&mut marketplace));
    assert!(result.is_ok());

    let content = marketplace.get_content(content_id).unwrap();
    assert_eq!(content.owner, accounts.bob);

    let listing = marketplace.get_listing(content_id);
    assert!(listing.is_some());
    assert!(!listing.unwrap().is_active);
}

#[test]
fn test_approve() {
    let accounts = default_accounts();
    let mut marketplace = NFTMarketplace::new(accounts.alice);
    let content_hash = String::from("unique_hash");

    let content_id = marketplace.mint_nft(accounts.alice, content_hash).unwrap();

    // Approve Bob to transfer the NFT
    let result = marketplace.approve(accounts.alice, content_id, accounts.bob);
    assert!(result.is_ok());

    // Charlie (unauthorized third party) attempts to approve another account (should fail)
    let result = marketplace.approve(accounts.charlie, content_id, accounts.charlie);
    assert_eq!(result, Err(Error::NotOwner));
}

#[test]
fn test_update_listing() {
    let accounts = default_accounts();
    let mut marketplace = NFTMarketplace::new(accounts.alice);
    let content_hash = String::from("unique_hash");

    let content_id = marketplace.mint_nft(accounts.alice, content_hash).unwrap();
    marketplace.list_asset(accounts.alice, accounts.alice, content_id, 100).unwrap();

    // Update the listing price
    let new_price = 150;
    let result = marketplace.update_listing(accounts.alice, content_id, new_price);
    assert!(result.is_ok());

    let listing = marketplace.get_listing(content_id).unwrap();
    assert_eq!(listing.price, new_price);

    // Bob (unauthorized user) attempts to update the listing (should fail)
    let result = marketplace.update_listing(accounts.bob, content_id, 200);
    assert_eq!(result, Err(Error::NotOwner));
}

#[test]
fn test_unauthorized_actions() {
    let accounts = default_accounts();
    let mut marketplace = NFTMarketplace::new(accounts.alice);
    let content_hash = String::from("unique_hash");

    // Mint an NFT and list it for sale
    let content_id = marketplace.mint_nft(accounts.alice, content_hash).unwrap();
    marketplace.list_asset(accounts.alice, accounts.alice, content_id, 100).unwrap();

    // Charlie (unauthorized third party) attempts to cancel the listing (should fail)
    let cancel_result = marketplace.cancel_listing(accounts.charlie, content_id);
    assert_eq!(cancel_result, Err(Error::NotOwner));
}

#[test]
fn test_owner_cannot_buy_own_nft() {
    let accounts = default_accounts();
    let mut marketplace = NFTMarketplace::new(accounts.alice);
    let content_hash = String::from("unique_hash");

    // Mint and list an NFT
    let content_id = marketplace.mint_nft(accounts.alice, content_hash).unwrap();
    marketplace.list_asset(accounts.alice, accounts.alice, content_id, 100).unwrap();

    // The owner (Alice) attempts to buy the NFT, sending 100 (should fail)
    let result = marketplace.buy_asset(accounts.alice, accounts.alice, 100, content_id);
    assert_eq!(result.unwrap_err(), Error::NotOwner);
}
