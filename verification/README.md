# quicklendx

Verified core rules of the QuickLendX invoice-financing protocol, written in
Verus. Every public function carries a `requires`/`ensures` contract that
Verus proves; the laws that relate several operations are public proof
functions.

Layout of `src/`:

- `errors.rs` – the protocol's error codes.
- `math.rs` – saturating products and basis-point discounts, with lemmas.
- `fees.rs` – fee structures, volume tiers, transaction fees, the platform
  fee on profit, treasury routing and the revenue split (`FeeManager`).
- `investment.rs` – investment statuses, insurance premiums, policies and
  claims.
- `investment_storage.rs` – stored investments and the index of active ones.
- `invoice.rs` – invoice statuses, per-status counts, tags, ratings, customer
  metadata and its indexes, and the cap on active invoices per business
  (`InvoiceRegistry`).
- `invoice_id.rs` – invoice identifiers (`InvoiceId`: ledger timestamp,
  ledger sequence and counter, whose 32-byte form is `to_bytes`) and the
  allocator that never hands out the same identifier twice; the invoice
  registry issues every identifier through it.
- `bid.rs` – bids on invoices, their expiry and the cleanup of expired ones.
- `payments.rs` – token transfers and escrows.
- `marketplace.rs` – the books together: verification of businesses and
  investors, accepted currencies, fee and limit configuration, uploading,
  verifying, funding, settling, defaulting, refunding, cancelling and
  rating invoices, with the funding records that tie each funded invoice to
  its investment and escrow; the stored admin and one-time initialization
  that rule the admin operations; and the events each transition announces.
- `defaults.rs` – overdue invoices, grace periods and batched default scans.
- `dispute.rs` – disputes on invoices.
- `kyc.rs` – verification of businesses and investors (with investment
  limits).
- `protocol_limits.rs` – bounds on amounts, due dates and texts, and tag
  normalization.
- `init.rs` – one-time protocol initialization and admin configuration.
- `pagination.rs` – offset/limit paging over ordered collections.

Accounts are plain `u64` handles, and the ledger time and sequence number
are passed in explicitly, so every operation is a pure state transition. Token
movements are not performed by the library: an operation that moves funds
checks the balances and allowances it is given and returns the transfer to
perform.
