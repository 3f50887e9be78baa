# p3_lib

Tools and game modifications for Patrician III, with their logic verified by
Verus.

- `src/` is the verified library: the navigation graph and its line-of-sight
  rasterizers (`connected_nodes`, `lines`), CPR archive reading (`cpr`), AIM
  image decoding (`aim`), the trading agent's routes, command channel and hooks
  (`routes`, `server`, `agent`), the operation queue locks (`locks`), the
  export lookup of the agent loader (`loader`), the chains of trading offices
  (`offices`), and the decisions of the game modifications (`mods`,
  `town_hall`). Public functions state their results in their contracts, with
  one kind of exception: `locks::try_lock` and `locks::unlock` act on an atomic
  lock word that other threads share and that Verus cannot see, so `try_lock`
  states nothing of its answer and `unlock` only that an error carries a
  previous value other than held; `lock_taken` and `release_outcome` state what
  those outcomes mean. The laws that tie functions together are public proof
  functions next to them.
- `tests/` runs the library on concrete values.
- `app/` holds the programs and the process glue: the command line tools, the
  AIM.dll binding, the agent's configuration file and TCP command server, and
  the spin loop of the queue locks.
