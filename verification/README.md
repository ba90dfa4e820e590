# staking_pool

A verified library for a delegated staking pool with post-quantum staking
keys, and the NEAR contract around it.

- `src/` is the library, verified with Verus:
  - `muldiv` — overflow-safe `a * b / c` and its exactness laws;
  - `key` — parsing `algo:base58data` staking keys into their Borsh encoding;
  - `account` — account-id validity and the stored pending owner;
  - `types` — delegator records, fees, views and errors;
  - `pool`, `staking`, `rewards`, `admin`, `views` — the pool's state and its
    operations, each stated as a transition from the pool, the records it
    reads and the chain values it needs to the new pool and the records and
    actions to carry out;
  - `migration` — upgrading stored state;
  - `laws` — properties that span operations.
- `app/` is the contract: it reads the environment and storage, calls the
  library, and performs the writes, transfers, callbacks and stake actions.
- `tests/` run the library on concrete values.
