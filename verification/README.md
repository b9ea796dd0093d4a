# qunux

The closure state of a process that solves problems by tickets, results and checks: who owns what,
which thread waits for what, what is to be done next, and whether a stored state is consistent. With
it comes what a terminal shows of such a process: the cockpit, the background processes, and the
cells and separators of the history.

`src/` is the library. Everything in it is verified by Verus.

- `entities`, `kinds`, `reports`, `context`, `error`: the records, with a view of each.
- `text`, `order`, `strmap`, `search`, `sorting`, `ids`, `json`, `lines`, `widths`, `styled`: texts,
  ordered maps and searches.
- `state`, `lookup`, `closing`, `forest`, `graph`: the state and the forest of its problems.
- `threads`, `spawning`, `waits`, `wake`, `matching`, `inbox`, `routing`, `tickets`: the operations.
  Each has a spec function from state to state, and the executable function is proved equal to it.
- `frontier`, `overview`, `document`, `validation`: what is next, what is the case, and what is wrong.
- `runtime`: the operations with a context and a clock.
- `cockpit`, `screening`, `dispatch`, `followups`, `footer`, `monitor`, `separators`, `exec_state`,
  `scroll`, `monitor_output`, `background`, `pages`, `pty`: what is shown and how processes are ended.
- `soundness`, `history`, `keeping`, `waking`, `consistency`, `wiring`, `upkeep`, `planning`,
  `validity`, `progress`, `handover`, `outcomes`, `addressing`, `laws`: what holds of all states and of sequences of operations.

The main laws, all named `law_…`:

- problems stay a forest, and identifiers to come stay free (`soundness`);
- no operation rewrites what was recorded (`history`, `keeping`);
- no waiting thread misses an event that is for it (`waking`);
- a state without faults stays without faults (`validity`, `progress`, `handover`);
- joining, recovering, consuming and acknowledging settle everything they touch, and a child that
  was recovered can be spawned anew (`outcomes`);
- a parked wait names its thread, and only an event addressed to it wakes it (`addressing`).

What is believed without proof is marked `external_body`, `assume_specification` or `uninterp`, and
says what it takes from which function: equality, debug form and growth of texts, whitespace and
widths of characters, the reading of a JSON document, the time, and random numbers.

`app/` stores states in files, draws on a terminal and drives child processes. `tests/` runs the
library.
