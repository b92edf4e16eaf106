# Fusion compositor

The state and the decisions of a Wayland compositor, verified with Verus, and
the program around them.

- `src/` is the library. It works on plain values: surfaces, outputs and icons
  are numbers, events come in as enums, and what has to be done goes out as
  enums. Every function states in its contract what it returns or changes;
  `src/laws.rs` states what holds across functions.
- `app/` is the program: the event loop, the sockets, the GPU and the Wayland
  objects. It reports events to the library and carries out what comes back.
- `tests/` runs the library.

| Module | Contents |
| --- | --- |
| `mapped`, `slots`, `globals` | windows, their stacking order, activation and configure handshake |
| `state` | requests of clients and of the control socket |
| `input`, `cursor` | pointer, keyboard and the pointer's picture |
| `connector`, `output`, `udev` | displays, their modes and the render cycle |
| `backend`, `window`, `session` | the two backends and the session type |
| `socket` | frames and messages of the control socket |
| `window_manager` | a plugin's tiling layout |

The library calls `slotmap` for the window records, `drm` for mode flags and
connector names, and `xcursor` for cursor files. What it relies on there is
stated in the functions marked `external_body`.
