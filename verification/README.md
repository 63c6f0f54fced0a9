# podracer

Server side of a top-down podracer arena. A browser client sends which of two
engines are held down; the server runs the physics and streams the state back.

- `src/` is the verified library (Verus):
  - `vehicle` — a vehicle record and the engine rule: both engines push forward
    with 42 units, one engine alone with 5 units and a torque of 10 that turns
    the craft away from the firing side, no engine gives nothing.
  - `game` — session bookkeeping: tick, the player's vehicle, player ids.
  - `map` — the arena's size and the layout of its four walls.
  - `network` — what to do with each frame read from a client socket.
  - `session` — the course of one connection as a state machine: admit and
    greet the player, then at each tick apply every input that arrived, step,
    and send the state; close on a failed handshake or send. A proof shows
    that the session equals a game built from the same calls.
  - `protocol` — the client's message.
  - `recording` — recording input changes and replaying them as a ghost, with
    the proof that a replay gives back what was recorded.
- `app/` is the program around it: the WebSocket server (tokio,
  tokio-tungstenite), the JSON forms of the messages and recordings (serde),
  and the rigid-body world (rapier2d), whose geometry and forces are `f32`.
- `tests/` runs the library on concrete values.
