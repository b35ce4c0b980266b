# diy_terminal

A small interactive shell (`cd`, `pwd`, `type`, `echo`, `history`, `exit`,
and the executables found on `PATH`), with a line editor in raw terminal mode
and a command history kept in `~/.diyhistory`.

- `src/` is the verified library: key decoding (`keys`), the line editor
  (`editor`), the command history and its browsing (`history`), the builtins
  (`builtins`), the cache of executables (`bins`), what to do with a typed line
  (`shell`) and the text helpers they share (`text`).
- `app/` is the program around it: raw mode through `libc`, reading keys,
  printing, the file system, the environment and running commands.
- `tests/` runs the library on concrete values.
