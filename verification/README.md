# Octopus relay

The relay of the Octopus Network on NEAR: a registry of appchains that go through
auditing, voting, staging and booting; the validators that stake OCT tokens on them;
and a bridge that locks NEAR fungible tokens for an appchain, within a limit set by the
appchain's stake, and carries out the messages that come back from it.

## Layout

- `src/` is the library, verified with Verus. The relay's state is held as plain
  values (`OctopusRelay`); the environment of a call comes in as a `Context`, and the
  calls to other contracts come out as the promises to create (`promise`). The
  contract of each operation states on which inputs it succeeds and which error each
  other input gets, what it returns and how the state changes; a refused call changes
  nothing.
  - `lib.rs`: the relay, its invariant, registration, staking and queries.
  - `pipeline.rs`: the life of an appchain from auditing to booting, and its removal.
  - `bridge_token_manager.rs`, `bridging.rs`, `native_token_manager.rs`: bridge tokens,
    their limit, locking and unlocking, and the native tokens of appchains.
  - `proof_decoder.rs`, `appchain_prover.rs`: messages from appchains.
  - `appchain/`: the state and metadata of one appchain, its validators and facts.
  - `str_map.rs`, `sums.rs`, `lexical.rs`: maps by text key, sums, and the order of ids.
    `StrMap` holds in memory what the contract keeps in NEAR's storage-backed collections,
    whose every operation is storage I/O; `app/` loads the state from storage and stores
    it back around each call.
- The migration of validators stored in an older layout is not part of the library: it
  only reads and rewrites raw contract storage.
- `tests/`: tests of the library on concrete values.
- `app/`: the NEAR contract around the library: it reads the environment, keeps the
  state in contract storage, creates the promises and turns values into JSON.
