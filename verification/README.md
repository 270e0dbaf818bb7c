# ddnet_client

The logic of a DDNet game client, verified with Verus: how buffered map
layers are prepared and drawn, the ping, frame and snapshot timing of the
client's prediction, the sending of inputs, the phases of a game session,
PNG loading and the bookkeeping of asset containers.

- `src/` is the verified library. Every module states its functions'
  behaviour in `requires`/`ensures` contracts over mathematical models;
  the public `law_*` proof functions state properties that span several
  calls or hold of every state.
- `tests/` runs the library on concrete values.
- `app/` is the program around it: file access, the floating-point parts of
  timing and of the upload buffers, and a small command-line driver.

Outside crates: `png` decodes and encodes images, `hashlink` keeps the
asset containers' usage order, and `arrayvec` holds asset paths; their
contracts are stated, unproved, on the few wrappers that call them.
