# tbg

A small server for turn-based multiplayer games, with its decisions proved
by Verus.

- `src/` is the verified library:
  - `error.rs`: the error type and its display text (with decimal rendering);
  - `message.rs`: the message types and the length-prefixed framing
    (4-byte little-endian length, at most 1024 payload bytes accepted), with
    the round-trip law;
  - `data.rs`: the player registry (unique names; each player added under
    an id not already in use);
  - `server.rs`: the lobby state machine: joining, voting, leaving, what a
    client thread forwards, what the server thread relays and when it starts
    the game; a joining player's id is at or above the lobby's next id, so
    it is fresh and larger than every earlier one; the vote and player
    counters agree with the players (modulo 256, the counters being bytes);
  - `client.rs`: turning a typed line into a player name (Unicode white space
    trimmed, empty refused);
  - `event.rs`: game events.
- `app/` runs it: TCP sockets, JSON through serde, tokio tasks and channels,
  console output.
- `tests/` exercises the library on concrete values.
