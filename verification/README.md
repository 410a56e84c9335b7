# Aurora launchpad

A token-sale launchpad for NEAR with settlement through the NEAR Intents contract: fixed-price
and price-discovery sales, discount phases, vesting, claims, withdrawals, distributions and
administration.

The sale logic is a library verified with [Verus](https://github.com/verus-lang/verus): every
public function carries a contract over a mathematical model of the launchpad, and the laws
that relate several operations are proved as proof functions.

## Layout

| Path                     | What it holds                                                               |
|--------------------------|-----------------------------------------------------------------------------|
| `src/types.rs`           | The data model: configuration, mechanics, vesting, investments.             |
| `src/mechanics/`         | Deposits, withdrawals and claims on a single investment.                    |
| `src/discount/`          | Discount phases: parameters, per-phase sale state, deposit distributions.   |
| `src/contract/`          | The launchpad's state and every decision it takes, with the status machine. |
| `src/account_map.rs`     | A map keyed by accounts, used for the launchpad's per-account state.        |
| `src/wide.rs`            | `a * b / c` through a 256-bit product.                                      |
| `src/utils.rs`           | Parsing of deposit messages.                                                |
| `src/factory.rs`         | Numbering of the launchpads that the factory creates.                       |
| `app/`                   | The NEAR contracts (launchpad and factory) around the library.              |
| `tests/`                 | Tests of the library.                                                       |

The contracts in `app/` read the blockchain environment and the results of other contracts,
hand plain values to the library and turn its decisions into token transfers; the library
never performs I/O itself.
