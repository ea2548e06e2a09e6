# finality-aleph (verified core)

The decision logic of the Aleph finality gadget, written in Verus and proved against its
contracts:

- `data_io`: what a node proposes for ordering (the branch above the finalized block, at most
  seven blocks), what happens to a proposal given the local chain (finalize, ignore, wait),
  which blocks ordered data finalizes, the store that holds messages back until their blocks
  are available, and the versioned encodings of the ordered data.
- `justification`: when justifications are requested, verified and acted upon, and the
  decisions of the handler's loop.
- `network`: peer admission to the base protocol, the gossip layer's connected peers and
  random peer choice, the translation of substrate network events, discovery of the
  committee, versioned authentication messages, and TCP addressing information.
- `aggregation`: signed block hashes handed out in the order their aggregation started.
- `metrics`: block timing between checkpoints (on top of the `lru` crate's caches), finality
  rate counting, and reorganization detection.
- `scale`, `compatibility`: byte encodings (through `parity-scale-codec`) with round-trip
  proofs, and version-tagged messages.

`src/` is the verified library; `app/` holds what runs around it (the clock, the float values
of the histograms, the loop of the network event stream); `tests/` exercises the library on
concrete values.
