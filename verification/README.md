# monitor_plugins

Two plugins for a monitoring hub, as a verified library and a thin shell around it.

- **Finance statistics** keeps what every node costs, converts it by exchange rates, shows yearly
  cost and remaining value, moves expiry dates on and announces those that near. It comes in two
  editions: one takes the hub's nodes over once, the other aligns its records with them all the
  time.
- **Telegram notices** tells the hub's events in words, from built-in texts or an operator's
  templates.

## Layout

| Path | What it holds |
|------|---------------|
| `src/text.rs`, `src/calendar.rs`, `src/json.rs` | texts, dates and JSON documents |
| `src/template.rs`, `src/notify.rs` | templates, and the notice plugin |
| `src/heap.rs` | the memory shared with the host |
| `src/finance/` | the finance plugin |
| `app/` | the WebAssembly entries, the host's functions, JSON rows, sums of doubles |
| `tests/` | both plugins against a host in memory, and their parts one by one |

Neither plugin calls its host. Each is a sequence of questions and answers: `advance` takes what is
known and an answer, and returns the changes to make and the next question. Its contract says
exactly what follows from what, and `src/finance/promise.rs` what that means for a whole run: rates
are fetched at most once, records that cannot be read are never overwritten, every run ends.
`src/finance/run.rs` says what a tick and a page come to once all the answers are in.

Prices and rates are IEEE 754 doubles and stand as their bits. The library decides what is added to
the totals, in what order and by which rate; the shell adds.
