# stellar_escrow

A trade escrow, verified with Verus. Sellers open trades with buyers; accounts
page through their transaction history, export it as comma-separated text,
search all trades with multi-criteria filters and sorting, and save searches as
named presets.

Layout:

- `src/types.rs`: trades, records, filters, pages and the other data types.
- `src/errors.rs`: the errors operations answer with.
- `src/escrow.rs`: the stored state (`Escrow`, its model `EscrowModel` and its
  invariant), administration, trade creation and cancellation, metadata rules.
- `src/escrow/presets.rs`: saved filter presets.
- `src/ordering.rs`: selecting positions and arranging them in sort order,
  with the proof that the arrangement is unique.
- `src/queries.rs`: history and search pages.
- `src/export.rs`: the history as comma-separated text.
- `src/laws.rs`: properties that hold across operations.
- `app/lib.rs`: the Soroban contract that keeps the state in contract storage,
  authorizes callers and supplies the current ledger.
