# minerider

A headless Minecraft 1.21.4 client, with its rules written and proved in Verus.

- `src/` is the library: wire primitives (`protocol`), the connection latch and the
  SOCKS5 negotiation (`network`), and the client's view of the game (`minecraft`):
  login and configuration, chunks and blocks, entities, inventory, HUD, scoreboard,
  presentation, control and the play state. Contracts state what a function returns
  or changes, and on which inputs it fails; `law_*` proof functions state what holds
  across calls. What comes from outside (a drawn number without a seed, whether a
  payload is still alive) is stated for every answer.
- `tests/` runs the library on concrete values.
- `app/` is the running client: sockets, timers, channels and the floating-point
  movement.

Floating-point numbers are kept in the library as their bits. Where a rule needs a
sum, a distance or an angle, the caller hands the result over.
