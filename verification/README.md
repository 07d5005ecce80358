# poke

Recurring, named timers with a terminal interface. The library in `src/` holds
the logic, with contracts proved by Verus; `app/` is the terminal program
around it.

- `src/text.rs`: Unicode whitespace, trimming, decimal numbers.
- `src/timer.rs`: `Timer`, the interval (`30m`, `1h30m`) and `HH:MM` parsers.
- `src/action.rs`: `Action` and the key map.
- `src/app.rs`: the form, the table selection, `App::update`, and the laws
  that tie them together.
- `src/screen.rs`: what the screen shows, decided from the state.
- `src/paths.rs`: where the configuration files live.
- `app/`: the event loop, rendering with ratatui, reading `config.toml`.
