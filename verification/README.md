# tetro_tui

A terminal frontend for a falling-tetromino game, with its decisions and
computations in a library that is verified with Verus.

## What is verified

`src/` holds the library. Each function says in its contract what it returns or
changes, and functions named `law_..` state what holds across several of them.

- `input_history`: inputs packed into one number each, and unpacked again.
- `settings`: palettes, keybinds and rules in slots; boards as text.
- `scores`: past games, the two orders in which they are listed, best games.
- `restoration`: recording a game and bringing it back.
- `application`: what a session holds, what of it is stored and loaded.
- `menu`: the stack of screens.
- `start_game`: modes, and games set up and started by name.
- `play_game`: what a button, a key and a frame do to a game that is played.
- `screen`, `base_screen`, `hud`, `paint`, `renderer`: the picture of a game and
  the commands that turn the last picture into the next.
- `about`, `game_ended`: two further screens.
- `text`, `time`, `color`, `button`, `keys`, `game`: the terms the rest is in.
- `spans`, `readiness`: where the engine can scale spans of time, pick pieces and
  count without leaving its range, so that it can move a game on.

The rules of the game itself come from the crate `falling-tetromino-engine`.
`engine`, `live` and `builder` declare what of it is used and what is believed
of it; every such declaration says so in its comment. Modifiers of a game are
functions that their makers answer for: the library asks that they be tame, which
means that they do not keep the engine from moving a game on.

Floating-point numbers stay outside: where one decides something, such as which
picture of an animation is due, the library takes the decision as an argument.

## What is not

`app/` is the program around the library: arguments, terminal, keyboard, clock,
threads and the savefile. `tests/` runs the library on given values.
