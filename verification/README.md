# tm_server_manager

The decisions of a Trackmania tournament manager, verified with Verus, and a parser for
GameBox (`.Gbx`) replay files.

- `src/` is the library. Every function states in `requires`/`ensures` what it returns for
  each input, except where the result goes through an outside call whose outcome depends on
  the machine (the zlib part of a replay is decompressed into room that the allocator gives):
  there the contract fixes what is handed to the call and states what holds of every outcome.
  The laws that span functions are public proof functions (`lemma_*`).
  - `node`, `connection`, `connection_data`, `action`, `graph`, `position`: the competition
    graph. Connections are checked for cycles with `petgraph`'s `Acyclic`; a finished node
    resolves its outgoing connections and readies the nodes that wait on nothing else.
  - `competition`, `tm_match`, `match_state`, `leaderboard`, `schedule`, `registration`,
    `project`, `tm_server`, `maps`, `user`, `env`: the requests on the stored objects.
  - `raw_server`, `occupation`, `destination`, `token`, `bridge`: servers that log in, are
    verified by their owners, lent to competitions and provisioned to matches.
  - `gbx`, `gamebox`: GameBox files (little-endian header, LZO-compressed body, zlib-compressed
    replay data).
- `tests/` runs the library on concrete values.
- `app/` is a command-line reader of GameBox files and the messages of refused requests.

The functions of the library never touch the store: they take what it holds as plain values
and return a decision on the request (its error, or what the request leads to), and where a
request writes rows, those rows. Every event of a match leaves a record of it.
