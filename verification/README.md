# lumina

The decisions behind the Lumina voice overlay's windows, verified with Verus.

- `src/` is the library: the soundboard's order, headings and locks
  (`soundboard`), the voice controls bar (`voice`), user rows and notifications
  (`overlay`), the keybind recorder (`keybind`), the settings window's rows and
  how a change updates the configuration (`settings`), the commands sent to the
  client (`bridge`), and the text primitives they rest on (`text`).
- `app/` holds the freya components that draw these decisions and send the
  commands.
- `tests/` runs the library on concrete values.
