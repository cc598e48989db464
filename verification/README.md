# Securitization contract

A contract for a general partner who offers securities and for limited
partners who commit to them, deposit capital against their commitments and
are settled with investment tokens; loan pool markers can be contributed as
collateral by whitelisted contributors.

## Layout

- `src/` is the library, verified with Verus. Every operation of the
  contract is a function on `ContractStorage`, a plain-value model of the
  contract's storage, and its contract states what is stored afterwards and
  what is answered.
  - `common/`: messages, securities, coins, errors and the chain messages
    the contract emits, as plain values.
  - `storage/`: one table per storage map of the contract.
  - `execute/`, `instantiate/`, `query/`, `migrate/`: the handlers.
  - `laws.rs`: properties that span several operations.
  - `util/`: marker helpers, settlement checks and test fixtures.
- `tests/`: tests of the library.
- `app/`: the contract's entry points for the chain: loading and saving
  storage, querying markers, converting messages to and from JSON and to
  chain messages.
