# twitch_bot

A Twitch chat bot built from three services that talk through a broadcaster:
the chat connection, the command service (which answers `!first`) and the
broadcaster that routes messages between them.

- `src/` is the verified library: message types, the broadcaster's routing
  (`broadcast.rs`), the command service (`services/commands.rs`), the chat
  connection's logging and message framing (`services/twitch/irc.rs`), the
  configuration, the clock and text helpers. Every function there carries a
  contract checked by Verus, and the laws of the library are proof functions
  beside the code they are about.
- `app/` is the program around it: threads, channels, the IRC client, the log
  file and the state file.
- `tests/` exercises the library on concrete values.
