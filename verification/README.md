# fungible

A verified token factory. Any signed account can create a fungible token with
a fixed supply, move it with ordinary or allowance-based transfers, and move it
for free a limited number of times per period; a free transfer's fee is paid
out of a per-token fund of the native currency, into which anyone can deposit.

Layout of `src/`:

- `state.rs`: the abstract state (`TokenState`), its invariant (the balances
  of each token add up to its total supply; free-transfer counts stay within
  their limit), and the lemmas about sums of balances.
- `module.rs`: `Module<C>`, the token factory over a native currency `C`, with
  its calls (`create_token`, `transfer`, `try_free_transfer`, `approve`,
  `transfer_from`, `deposit`, `on_initialize`) and storage getters.
- `currency.rs`: the `Currency` trait that the native currency implements, and
  `SimpleBalances`, an in-memory implementation.
- `account.rs`: the fund account of a token, derived through SCALE encoding
  (`parity-scale-codec`).
- `origin.rs`: call origins and `ensure_signed`.
- `fees.rs`: `TakeTokenFees`, paying a transaction fee in a token.
- `sum.rs`: sums over finite sets of accounts.
- `laws.rs`: properties that hold across calls.
