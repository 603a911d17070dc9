# Echos in the Dark, verified core

The rules of the "Echos in the Dark" roguelike as a Verus library, with a
headless Bevy runner around it.

- `src/` — the verified library:
  - `position`, `action`, `tile`, `gamemap`: grid cells, directions, actions,
    tiles and levels;
  - `turn_actor`: an actor's forced, queued and preferred actions and its
    action timing;
  - `turn_manager`, `turn_queue`: the two turn schedulers (turn/time pairs
    and a single wrapping clock), their cleanup and validation;
  - `turn_processor`: the decisions taken while processing turns;
  - `ai`, `behavior`: AI knowledge, path following and the chase, flee,
    wander, attack and idle behaviours;
  - `player`: player actions and key handling;
  - `pathfinding`: cached paths with recalculation rules, and the chase and
    flee behaviours that follow them;
  - `procgen`: mine, cave, dark-adventure and surface level generation;
  - `gen_config`: depth-based generation settings and stair placement;
  - `rng`: the calls into `rand` and `fastrand`;
  - `text`: decimal and boolean renderings used to state the library's
    messages.
- `tests/` — tests of the library.
- `app/` — the Bevy program: components, turn loops, AI systems (with the
  floating-point scorers), keyboard input and level setup.
