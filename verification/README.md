# xdg-shell-wrapper

The decision logic of a small embedded Wayland compositor that hosts the
windows of one wrapped client on layer-shell surfaces of the desktop
compositor, verified with Verus.

Protocol objects (surfaces, seats, outputs, buffers) are represented by plain
integer ids; the library decides what to do with them and the program that
drives it performs the requests.

- `src/` — the verified library, one module per concern: configuration
  (`config`), geometry and size constraints (`geometry`), pending render
  events (`events`), wrapped windows and their popups (`surface`, `popup`,
  `renderer`, `space`, `simple`), input (`focus`, `pointer`, `seat`, `wire`),
  drag and drop (`dnd`), committed surfaces (`layer`), outputs (`output`),
  shared-memory buffers (`buffer`) and starting the client (`launch`).
- `tests/` — tests of the library on concrete values.
- `app/` — the command-line program: configuration files, the child process
  and its socket.
