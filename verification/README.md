# nft_marketplace

A verified NFT marketplace for ink! smart contracts: minting NFTs by content
hash, approvals, ownership transfers, listings, purchases and the events they
record. Every message is proved against an abstract state machine.

- `src/model.rs` — the abstract marketplace (`MarketView`), its invariant, one
  spec function per message giving the next state and the result, and message
  sequences (`run`).
- `src/marketplace.rs` — `NFTMarketplace`, whose messages are proved to refine
  the model. A message takes the calling account (and, for listing and buying,
  the marketplace's own account and the value sent) as arguments. A purchase
  is recorded by `buy_asset` and stays pending: `next_payout` says which
  payment to make, `record_payout` takes whether it went through (a failure
  stops the payouts), and `settle_sale` closes the purchase, recording the sale
  only when every payout went through.
- `src/laws.rs` — the laws over the model: the invariant is kept, a refused
  message changes nothing, history is never rewritten, minting is idempotent,
  only owners and approved accounts move NFTs, a listing stays active until it
  is canceled, bought or its NFT transferred, a sold NFT is not sold again until
  relisted, a sale's payouts add up to what the buyer sent, and a sale is
  recorded as sold only by settling a fully paid purchase, once. A settlement
  refused because a payout failed only closes the purchase; the purchase has
  already handed the NFT to the buyer.
- `app/` — the ink! contract: it reads the environment, makes the payouts,
  emits the recorded events, and keeps the marketplace in contract storage.
