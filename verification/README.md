# mycloud

The logic of the MyCloud canister fleet on the Internet Computer, written
in Verus: every function in `src/` carries a contract, and the contracts
are proved.

- `src/principal.rs`, `src/keyed.rs`, `src/text.rs`: principals, the
  sorted key-value store every canister keeps its records in, the byte
  encodings of composite keys, decimal text. The records are the
  library's own types, which do not implement the `Storable` trait that
  `ic_stable_structures::StableBTreeMap` asks of its keys and values, so
  they are kept in this store; each canister state has private fields, a
  verified `restore` constructor, and snapshot functions that `app/` uses
  to carry the state across upgrades.
- `src/auth/`: the user registry and the per-user credential vault.
- `src/registry/`: smartsites, their validation and the owner index.
- `src/manager/`: the fleet watchdog, its event ring buffer and watch list.
- `src/hopeandgrace/`: the ceremony notary's access rules, record
  invariants, legal document keys and content hash.
- `laws.rs` in each module: properties that span several calls, stated
  and proved as proof functions.
- `app/`: the canister methods around the library (caller, clock, timer,
  inter-canister calls, Candid types, upgrade persistence).
- `tests/`: executable tests of the library.
