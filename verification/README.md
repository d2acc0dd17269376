# nockchain_wallet

The decisions of a Nockchain wallet when it creates a transaction or syncs its balance,
written and proved in Verus.

- `src/` is the library. It holds no I/O: each conversation with the outside is a value that
  says what is waited for, and a method for each answer.
  - `planner` plans a transaction, from the wallet's notes to the command for the kernel.
  - `command` builds that command; `names` reads and writes note names; `signers` finds the
    locks that a signing key opens; `constants` reads the blockchain constants.
  - `balance` merges and filters balances; `sync` fetches them from a node.
  - `noun` is the kernel's data format; `order`, `text` and `digest` are what the rest is
    built on; `error` is what is reported.
- `tests/` runs the library on concrete values.
- `app/` performs the calls that the library asks for, and logs what it does.
