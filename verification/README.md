# rpg_s1

The rules of a turn-based role-playing game, written in Verus and proved against their
contracts.

- `src/` — the verified library.
  - Scenario content: package keys and roots (`scenario_root`), scenario-relative paths
    (`scenario_path`), catalog ids and duplicate detection (`scenario_duplicate_id`), flag
    conditions, the validation baseline comparison, and the content records (classes, items,
    enemies, encounters, recipes, transport, balance).
  - The battle engine (`battle/`): combatants and statuses, turn order, hit, critical and flee
    rules, physical attacks, abilities and items, enemy behaviour and targeting, rewards and
    loot, the input handler that moves a battle through its phases, the command panel's
    contents, status badges, and the sound and label cues of battle events.
  - Input and application state: per-frame semantic actions and their recorded form
    (`action_input`), top-level state transitions (`app_state`), the ending title of the
    credits (`credits`).
  - The command line (`cli`): which command a process invocation asks for, with its options
    checked, and the debug launch options (`debug_launch`).
  - Small text utilities (`text`) and the deterministic gameplay generator (`gameplay_rng`).
- `tests/` — tests of the library through its public interface.
- `app/` — the `rpg-s1` command line: process arguments and environment in, the library's
  decision out.

Fractions that the game tunes by (chances, multipliers, coefficients) are integers per myriad:
`10_000` is one.
