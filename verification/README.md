# backtest

Tracks arbitrage opportunities between two prediction markets, tells which of them
would have lasted and which slipped away, and reports on what was tracked.

The library is written in Verus: every function states what it does, and the proofs
stand beside the code.

| module | what it holds |
| --- | --- |
| `signal`, `opportunity` | what strategies report, and the life of an opportunity |
| `tracker` | which opportunities are active, confirmed or gone after a price update |
| `tracker_laws` | what holds of whole updates, and of the end of a session |
| `service` | a tracker at the service of others, message by message |
| `analytics` | counts, means and rankings over stored opportunities |
| `sessions` | names of sessions, and which came last |
| `collector` | prices as the venues write them, and which come close to an arbitrage |
| `export`, `cli` | comma-separated values, and the command lines |
| `report`, `pages`, `snapshot_report` | the texts of the reports |
| `layout`, `ranking`, `text` | tables, orders and texts |

The library does no input or output. `tracker` and `service` hand out actions and take
the events that came of them; `app/` carries the actions out. Numbers in floating point
pass through the library as the bits of a double, or as texts.

`app/` holds the two programs, `backtest-report` and `price-collector`, and the live
tracker that a bot embeds with its own strategies.
