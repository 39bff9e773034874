# fog_ledger

The untrusted side of a fog ledger server: one service hands out blocks, the other looks up
transaction outputs by their public keys. The decisions of both are verified with Verus.

- `src/` is the verified library. A request becomes a run that asks one question at a time, of the
  ledger or of the watcher; each reply is worked into the run until the response is there.
  - `span`, `watcher`: how the timestamp of a block is found by polling the watcher, and when a
    watcher that is behind calls for a warning.
  - `block`, `block_service`: requests for blocks.
  - `tx_out`, `tx_out_service`: requests for transaction outputs.
  - `block_sessions`, `tx_out_sessions`: what comes of a request as a whole. Every conversation
    between a run and its surroundings is classified, with the response that it ends with.
- `app/` holds the gRPC services around the library, which read the ledger and the watcher, sleep,
  log and send, and the tables of the recovery database.
- `tests/` runs the library on concrete conversations.
