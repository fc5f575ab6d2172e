# hacktyper

A terminal "hacker typer": mash keys and source code appears, coloured, as if
typed; or watch a digital rain.

- `src/` is the verified library: the typing state machine and popup layout
  (`ui`), syntax colouring and layout of the typed text (`highlight`, on top of
  `syntect`), the choice and repetition of the text (`source`), the digital
  rain (`matrix`), the choice of a terminal emulator (`terminal`) and the
  configuration defaults (`config`).
- `app/` is the program around it: arguments, the terminal and audio, files,
  the configuration file and the event loops.
- `tests/` runs the library on concrete values.
