# chainbridge

A cross-chain bridge written in Verus, with its behaviour stated in contracts and proved.

- `src/types.rs`: identifiers, origins, errors and `derive_resource_id`.
- `src/table.rs`: a map kept as a list of entries, for keys without a modelled hash.
- `src/u256.rs`: the 256-bit integers of `sp_core`, behind small trusted wrappers.
- `src/votes.rs`: the votes on one proposal and how they are counted.
- `src/bridge.rs`: relayers, whitelisted chains, resources, proposals and numbered transfers.
- `src/erc721.rs`: a registry of non-fungible tokens.
- `src/example.rs`: a module that moves hashes, native tokens and registry tokens over the bridge.
- `src/laws.rs`: what every call keeps, and how calls relate to each other.
- `app/lib.rs`: the glue to a chain: account derivation, call encoding, dispatch and payments.

Each storage-changing function is specified by a step function over the module's model
(`BridgeState`, `Erc721State`, `ExampleState`): the new model and the result are exactly
what the step gives for the old model.
