# mantis_shooter

The rules of a small first/third-person arena shooter, verified with Verus,
and the program around them.

- `src/` is the verified library:
  - `rng.rs`: the xorshift32 generator that drives every random choice;
  - `ai.rs`: the table of twelve enemy actions and the draws that pick one;
  - `melee.rs`, `spray.rs`: melee swing and recoil-pattern timers;
  - `rules.rs`: the game state, its invariant and value, new games, starting
    from the menu, restarts (which start play at once), the request to exit
    and the start of each frame (start screen, pause on Escape, game over,
    death, countdown);
  - `combat.rs`: damage, kills, score, triggers and health pickups;
  - `enemies.rs`: enemy action planning, death animation and respawn;
  - `hud.rs`: countdown seconds and the dimmed pause screen;
  - `frame.rs`: each rule step on the game's value, their composition into
    a whole frame in the order the program applies them, and the laws of a
    frame and of runs of frames (kills and score, the game's invariant, the
    death and respawn cycle of enemies).
- `app/main.rs` is the program: window, input, 3D geometry, line of sight,
  collisions and drawing through the `mantis` engine, all of which work on
  floating point. It measures what the rules need (distances, line of
  sight, hits) and calls the library's steps in the order of `frame.rs`.
  Verus does not see the program, so that order, and the checks it makes
  before each call whose precondition it must meet, rest on reading it; the
  laws in `frame.rs` hold of the composition written there.
- `tests/` runs the library on concrete values.
