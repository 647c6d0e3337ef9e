# sim

The deterministic simulation core of a Liero-style artillery game, verified
with Verus. Everything advances with integer and 16.16 fixed-point
arithmetic, so a run is bit-for-bit reproducible; the state hash is the
determinism oracle.

## Layout

- `src/` — the verified library.
  - `fixed`, `pool`, `draws`: fixed-point vectors, the slot pool and the
    swap-remove blood pool, and the draw tape.
  - `state`, `control`, `physics`, `worm`: the simulation state with its
    tables and settings, the level and worms, the control
    word, worm reactions and physics, and the per-worm tick (dead phase,
    respawn search and drop-in, drip, death).
  - `weapon`, `nobject`, `sobject`, `bobject`, `bonus`: projectiles, other
    objects, explosions, blood and bonus crates, each with its per-tick step
    and the walk over its pool; `tick`: the close of a tick's object phase
    (blood, tick count, bonus drop roll).
  - `blit`, `levelgen`, `shadow`: crater stamping, level generation and
    shadow flags.
  - `hash`, `debug`, `game_over`, `flash`, `shake`, `sound`: the state hash,
    the ASCII dump, the end-of-game test and the per-frame effect records.
- `tests/` — the tests, run against the compiled library.
- `app/` — the frame driver: it feeds the library's draw tapes from the
  game's random stream and runs the phases of a tick, calling the per-worm
  control steps and the map stamp that the game supplies.

## Random draws

A step that uses randomness reads its draws from a `Draws` tape of raw 32-bit
outputs: a draw below `n` is `(raw * n) >> 32`. Reading past the end of a
tape gives 0 and marks the tape short. The contracts state exactly which
draws a step reads and in which order, so a driver can feed a tape from any
generator and advance the generator by `used()`.
