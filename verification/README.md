# tcg_core

A headless trading card game engine: two players, cards played from hand at a mana
cost, units that attack units or players, and turns that refill mana and ready units.
Every command is answered with the events it caused, which are also appended to the
game's event log.

## Layout

- `src/` — the engine, verified with Verus.
  - `model.rs`: the game state (players, card definitions, card instances) and its
    mathematical view.
  - `event.rs`, `command.rs`: what players ask for and what the game reports.
  - `id_map.rs`: a map keyed by string identifiers, kept in insertion order.
  - `rules.rs`: the rules as spec functions from a state and a command to the next
    state and the result, including the starting position and well-formedness.
  - `engine.rs`: `CoreEngine`, whose `new` and `dispatch` are proved to follow
    `rules.rs` exactly, and `command_overflows`, which tells whether a command would
    overflow one of the game's machine integers.
  - `laws.rs`: properties proved of every command (event log, refusals, failures,
    determinism, turns, life, attacks, well-formedness, units on the field keeping sound
    stats, moving a unit to the graveyard twice).
  - `placement.rs`: every card is listed exactly once, in its owner's list for its
    zone, at the start and after every command; and the same for the cards in play
    (hands, fields and graveyards), with every listed card in that list's zone.
- `tests/` — tests of the engine on concrete games.
- `app/` — the WebAssembly binding (`Engine`) that takes commands from JavaScript and
  hands back events and state as JavaScript values.
