# mmpd

mmpd turns a MIDI keyboard or controller into a macro pad: incoming MIDI events are matched
against configured macros, which run actions (key sequences, text entry, shell commands,
waits) when their scope matches the focused window and their preconditions hold.

Layout:

- `src/` is the library, verified with Verus:
  - `midi`, `midi_state`: decoding MIDI messages and keeping the state of notes, controls,
    programs and pitch bend;
  - `match_checker`, `event_matching`, `preconditions`, `macros`, `state`: matching events,
    preconditions and scopes, and deciding which macros fire;
  - `raw_config`, `config`: the intermediary configuration tree and the builders of version 1
    of the configuration format, with the exact error for every refused input;
  - `actions`: what running an action amounts to, step by step;
  - `expressions`, `variables`: the two readers of variable notation;
  - `keyboard_control`, `focus`, `monitor`: the platform-independent parts of keyboard
    control, focused-window detection and the monitor program.
- `tests/` holds the tests of the library.
- `app/` is the program around it: MIDI input, YAML reading, keyboard and window access, and
  running shell commands.
