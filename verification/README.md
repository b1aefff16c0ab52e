# aimc

The core of a simulated 3D-printer motion controller, written in Verus.

- `src/` is the verified library: packet framing and message handling
  (`comms`), automation sequences and the hardware-abstraction traits
  (`hal`), the tick-rate window (`fps_counter`), g-code program messages and
  the meaning of g-code commands (`motion`), the computing parts of the
  browser simulator (`sim`), and spans of time (`time`). `packet` and `wire`
  hold the trusted calls into the `anpp` and `scroll` crates.
- `app/` is the WASM simulator around it (browser bindings, the browser
  clock) and the floating-point parts of the controller: tick frequency,
  points, feed rates and move geometry.
- `tests/` exercises the library from outside.
