# textadventurer

A daemon that lets people play text adventures in a browser. It loads the games
in a directory, serves a JSON list of them, and runs one process per player,
connected to the player's websocket.

- `src/` holds the rules, verified with Verus: which directory entries are games
  (`loader`, `paths`), the list of games (`catalog`, `json`), lookups and game ids
  (`server`), one player's game (`actor`), its pipes (`streams`), its shutdown
  (`teardown`) and the command line (`cli`).
- `app/` holds the web server, the file system, the processes and the threads.
  It does what the library tells it to, and reports back.
- `tests/` runs the library.

Each module states what it promises in `ensures` clauses; what holds across calls
is in the public proof functions whose names start with `law_`. What is believed
about other crates and the standard library is in the functions marked
`external_body` and the `assume_specification` items, each with a comment that
says what.
