# fetch_stream

Fetch streams follow the records that are written to the shards of an index. On an ingester, a
fetch task reads the log of a shard and sends its records, batch by batch. On the consumer's side,
streams of many shards are combined into one, fail over to replicas where an ingester fails, and
are retried until they reach the end of their shard.

- `src/` decides, and is verified with [Verus](https://github.com/verus-lang/verus). Each stream is
  a state machine: it hands out an action, and takes back what became of it. The modules whose
  names end in `_run` prove what holds of all runs of these machines, and `delivery` and
  `end_to_end` what holds of them together.
- `app/` acts: it holds the channels, locks, tasks and timers.
- `tests/` runs the state machines against ingesters and logs made up for the purpose.
