# pallet_registry

A verifiable attributes registry: registries are classes of non-fungible
tokens, and a token of a registry is minted only with Merkle proofs that a
document anchored on chain holds the registry's fields and the token id.

- `src/` is verified with Verus.
  - `types.rs`: ids, registry information, mint data, origins, errors, events.
  - `token.rs`: 256-bit token ids read from big-endian bytes.
  - `hashing.rs`: Blake2-256 through `sp-runtime`.
  - `pallet.rs`: the registry storage, registry creation and the checks of a mint.
  - `laws.rs`: properties that span creation and minting.
- `tests/` runs the library.
- `app/` connects the library to a runtime: origins, the anchors pallet, proof
  verification and the NFT pallet.
