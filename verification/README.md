# Plasm lockdrop

The rules of the Plasm lockdrop, verified with Verus. Users lock BTC or ETH for some time and request
PLM for it; authorities check the locking transactions and vote; an approved claim is paid once.

- `src/` holds the rules. `state.rs` says what each call makes of the state, `module.rs` does it, and
  `laws.rs` states what holds through all steps. `worker.rs` decides what an authority's offchain
  worker does next, and `runs.rs` states what whole runs of it send; `lock.rs`, `ticker.rs`,
  `json.rs` and `text.rs` read what services answer and tell what fails. `issue.rs` says
  what a lock earns, `rates.rs` and `rate_filter.rs` what the dollar rates are. `scale.rs`,
  `hashing.rs` and `crypto.rs` write, hash and check what is signed.
- `tests/` runs the rules on given values.
- `app/` ties the rules to a Substrate runtime: storage, currency, sessions, the transaction pool, the
  keystore and the network.
