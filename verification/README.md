# sov_sequencer

The decision logic of a rollup's preferred sequencer, written in Verus and
verified against its contracts.

- `src/` is the verified library: the nonce buffer that reorders transactions
  arriving ahead of their sender's nonce, the token-bucket rate limiter keyed by
  address and IP network, the cache of completed blobs and the batch in
  progress (with the proofs to replay before a batch), the priority heap of the
  state updater's messages, the slot arithmetic that advances the visible slot
  number, the readiness and batch-production policies, the operation chosen
  when the node reports new state, leader-election decisions, and the metric
  lines in the Telegraf line protocol.
- `tests/` runs the library on concrete values.
- `app/` holds what the library leaves to its caller: network lookups of the
  local IP, the monotonic clock, channels, async interfaces, serde and error
  types, and the panics on invalid configuration.
