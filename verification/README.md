# chungustrator

The verified core of a game-server orchestrator.

- `src/ports.rs`: the pair of adjacent host ports a game server occupies.
- `src/allocator.rs`: the port allocator (smallest handed-back pair first,
  then fresh pairs) with its abstract model, its invariant and its laws.
- `src/text.rs`, `src/container.rs`: the two container plans (game server
  and server-query client) as plain values.
- `src/orchestrator.rs`: configuration, the steps of creating a game server,
  and the replies given to the matchmaker and to HTTP callers.
- `app/`: the process around it: container engine calls, channels, logging,
  the HTTP endpoint.
