# olivia

An oracle that announces real-world events and attests to their outcomes, with
the announcement signed by its key and each attestation verifiable against the
announcement (olivia-v1 Schnorr attestation scalars and ecdsa-v1 signatures on
secp256k1).

The library in `src/` is written in Verus:

- `path`, `event`, `outcome`, `entity`, `descriptor`: event ids (`/path/NAME.kind`),
  their kinds and outcomes, and the texts that name them.
- `seed`, `curve`, `keychain`: the keys and nonces derived from the oracle's seed,
  and the secp256k1 operations on them.
- `announcement`, `attestation`, `oracle_info`: what the oracle publishes and the
  check of an attestation against its announcement.
- `db`: the in-memory store, its queries and the nodes of its tree (children listed,
  given as a range, or grouped by date); `oracle`: adding events and completing
  them; `rest_api`: what HTTP requests are answered.
- `sources`, `config`: tickers, outcome creators, the predicate events derived from
  an event (`=<outcome>`, `price_<bound>`), and the outcomes that an outcome gives
  the events beside it.
- `describe`: human-readable descriptions of paths, events and outcomes.

`app/` holds the `olivia` command: configuration files, the JSON encoding of
oracle events, and the loop that runs the tickers and outcome sources.
