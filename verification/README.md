# ws_game_client

The logic of a websocket game client, verified with Verus.

- `src/wire.rs`: the protobuf wire format (varints, tags, length-delimited
  and unknown fields), read and written through `quick_protobuf`.
- `src/proto/state_messages.rs`: the server's state messages, their encoding,
  decoding and size, and the proof that what is written reads back the same.
- `src/new_networking/serialization.rs`: framing of messages with a header byte.
- `src/networking/`: what the listening and receiving tasks do with each
  message, the send loop's decisions, and turning stored messages into events.
- `src/game/`, `src/gameplay/`: players, the game world, and the plan for each
  network event.
- `app/`: the Bevy program, the websocket tasks and other I/O around the library.
