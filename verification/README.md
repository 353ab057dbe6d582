# ani_gui_core

The decision core of the ani-gui backend, written in Verus and proved
against its contracts.

- `src/` is the verified library. Each module holds one concern:
  episode numbering between the provider and Kitsu (`numbering`,
  `anidb_offset`, `offset_store`), choosing the provider show
  (`picker`), the resolution walk and its circuit-breaker verdicts
  (`walk`), the play and download decisions (`play`, `download`),
  availability probing (`availability`), tracker write-back
  (`account`), player command lines (`external_player`, `syncplay`),
  the shared watch-history file (`history`), and the small text
  helpers they share (`text`). Laws that relate several functions are
  public proof functions named `law_*`.
- `tests/` runs the library on concrete values.
- `app/` is the unverified process side: reading and writing the
  settings, history and offset files, taking the download locks,
  spawning players, and the serde shapes exchanged with the frontend.
  What it does, it decides through the library. The HTTP surface and
  the loops that drive the play, download, availability and tracker
  flows (provider requests, the SQLite caches) are not wired up here.

Calls into `shlex`, `uuid`, `url`, `String::push` and the standard
library's Unicode case mapping are the library's only trusted
functions; each sits behind a small wrapper whose doc comment says what
its contract claims.
